use vstd::prelude::*;
use crate::source::{VecStream, lemma_end_is_sticky, lemma_run_yields_pending};
use crate::stream::{ByteStream, FiniteStream, PushBackable, TryByteStream, is_run};

verus! {

/// Wraps a stream with a single slot: an item pushed back is handed out again
/// before the wrapped stream is asked for the next one.
pub struct PushBack<S: TryByteStream> {
    stream: S,
    val: Option<S::Ok>,
}

impl<S: TryByteStream> PushBack<S> {
    /// The wrapped stream.
    pub closed spec fn source(&self) -> S {
        self.stream
    }

    /// The item waiting in the slot, if any.
    pub closed spec fn held(&self) -> Option<S::Ok> {
        self.val
    }

    pub fn new(stream: S) -> (r: Self)
        ensures
            r.source() == stream,
            r.held() is None,
    {
        PushBack { stream, val: None }
    }
}

impl<S: TryByteStream> PushBackable for PushBack<S> {
    type Item = S::Ok;

    open spec fn held_item(&self) -> Option<S::Ok> {
        self.held()
    }

    /// The slot takes `v`, whatever it held goes back to the caller, and the
    /// wrapped stream is left alone.
    open spec fn push_back_post(pre: Self, v: S::Ok, post: Self, prev: Option<S::Ok>) -> bool {
        &&& prev == pre.held()
        &&& post.held() == Some(v)
        &&& post.source() == pre.source()
    }

    fn push_back(&mut self, v: S::Ok) -> (prev: Option<S::Ok>) {
        let prev = self.val.take();
        self.val = Some(v);
        prev
    }
}

impl<S: TryByteStream> ByteStream for PushBack<S> {
    type Item = Result<S::Ok, S::Error>;

    /// A held item comes out first, without touching the wrapped stream;
    /// otherwise the wrapped stream's answer is passed on unchanged.
    open spec fn next_post(pre: Self, post: Self, r: Option<Result<S::Ok, S::Error>>) -> bool {
        &&& post.held() is None
        &&& match pre.held() {
            Some(v) => r == Some(Ok::<S::Ok, S::Error>(v)) && post.source() == pre.source(),
            None => S::try_next_post(pre.source(), post.source(), r),
        }
    }

    fn next(&mut self) -> (r: Option<Result<S::Ok, S::Error>>) {
        if let Some(v) = self.val.take() {
            Some(Ok(v))
        } else {
            self.stream.try_next()
        }
    }
}

impl<S: FiniteStream> FiniteStream for PushBack<S> {
    open spec fn remaining(&self) -> nat {
        self.source().remaining() + if self.held() is Some { 1nat } else { 0nat }
    }

    proof fn lemma_next_shrinks(pre: Self, post: Self, r: Option<Result<S::Ok, S::Error>>) {
        if pre.held() is None {
            S::lemma_next_shrinks(pre.source(), post.source(), r);
        }
    }
}

} // verus!

verus! {

/// With nothing held, a run of `PushBack` is the wrapped stream's own run:
/// every item comes from it, unchanged and in order, and the slot stays empty.
pub proof fn lemma_forwarding_identity<S: TryByteStream>(
    states: Seq<PushBack<S>>,
    items: Seq<Result<S::Ok, S::Error>>,
)
    requires
        is_run(states, items),
        states[0].held() is None,
    ensures
        forall|i: int| 0 <= i < states.len() ==> (#[trigger] states[i]).held() is None,
        forall|i: int|
            0 <= i < items.len() ==> S::try_next_post(
                states[i].source(),
                states[i + 1].source(),
                Some(#[trigger] items[i]),
            ),
{
    assert forall|i: int| 0 <= i < states.len() implies (#[trigger] states[i]).held() is None by {
        if i > 0 {
            let j = i - 1;
            assert(PushBack::<S>::next_post(states[j], states[j + 1], Some(items[j])));
        }
    }
    assert forall|i: int| 0 <= i < items.len() implies S::try_next_post(
        states[i].source(),
        states[i + 1].source(),
        Some(#[trigger] items[i]),
    ) by {
        assert(PushBack::<S>::next_post(states[i], states[i + 1], Some(items[i])));
    }
}

/// Over a `VecStream`, a `PushBack` with nothing held yields the source's items
/// as they stand, in order, and leaves the rest pending.
pub proof fn lemma_forwarding_identity_vec<T, E>(
    states: Seq<PushBack<VecStream<T, E>>>,
    items: Seq<Result<T, E>>,
)
    requires
        is_run(states, items),
        states[0].held() is None,
    ensures
        states[0].source().pending() == items + states.last().source().pending(),
        states.last().held() is None,
{
    lemma_forwarding_identity(states, items);
    let sources = Seq::new(states.len(), |i: int| states[i].source());
    assert forall|i: int| 0 <= i < items.len() implies #[trigger] VecStream::<T, E>::next_post(
        sources[i],
        sources[i + 1],
        Some(items[i]),
    ) by {
        assert(<VecStream<T, E> as TryByteStream>::try_next_post(
            states[i].source(),
            states[i + 1].source(),
            Some(items[i]),
        ));
    }
    lemma_run_yields_pending(sources, items);
    assert(states.last().held() is None);
}

/// A value pushed back is the next item out, and after it the wrapped stream
/// goes on from where it was.
pub proof fn lemma_push_back_replay<S: TryByteStream>(
    p: PushBack<S>,
    v: S::Ok,
    prev: Option<S::Ok>,
    q: PushBack<S>,
    r: Option<Result<S::Ok, S::Error>>,
    q2: PushBack<S>,
)
    requires
        PushBack::<S>::push_back_post(p, v, q, prev),
        PushBack::<S>::next_post(q, q2, r),
    ensures
        r == Some(Ok::<S::Ok, S::Error>(v)),
        q2.source() == p.source(),
        q2.held() is None,
{
}

/// Two push-backs in a row: the second hands back the first value, and only
/// the second stays held.
pub proof fn lemma_single_slot_overwrite<S: TryByteStream>(
    p: PushBack<S>,
    v1: S::Ok,
    prev1: Option<S::Ok>,
    q: PushBack<S>,
    v2: S::Ok,
    prev2: Option<S::Ok>,
    q2: PushBack<S>,
)
    requires
        PushBack::<S>::push_back_post(p, v1, q, prev1),
        PushBack::<S>::push_back_post(q, v2, q2, prev2),
    ensures
        prev2 == Some(v1),
        q2.held() == Some(v2),
        q2.source() == p.source(),
{
}

/// Over a `VecStream`, once `None` has come out with nothing held, `None`
/// comes out again.
pub proof fn lemma_end_is_sticky_push_back<T, E>(
    p: PushBack<VecStream<T, E>>,
    q: PushBack<VecStream<T, E>>,
    q2: PushBack<VecStream<T, E>>,
    r: Option<Result<T, E>>,
)
    requires
        PushBack::<VecStream<T, E>>::next_post(p, q, None),
        PushBack::<VecStream<T, E>>::next_post(q, q2, r),
    ensures
        r is None,
        q2.held() is None,
        q2.source().pending().len() == 0,
{
    lemma_end_is_sticky(p.source(), q.source(), q2.source(), r);
}

} // verus!
