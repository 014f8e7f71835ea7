use vstd::prelude::*;
use crate::source::{VecStream, lemma_end_is_sticky};
use crate::stream::{ByteStream, FiniteStream, PushBackable, TryByteStream, is_run};

verus! {

/// `init` with every byte of `bytes` folded in by XOR, first to last.
pub open spec fn xor_fold(init: u8, bytes: Seq<u8>) -> u8
    decreases bytes.len(),
{
    if bytes.len() == 0 {
        init
    } else {
        xor_fold(init, bytes.drop_last()) ^ bytes.last()
    }
}

/// A push-back stream that keeps the XOR of every byte handed to the caller:
/// a byte from the wrapped stream is folded in when it comes out, a pushed-back
/// byte when it is pushed back, and not again when it comes out once more.
pub struct XorSumPushBack<S: TryByteStream<Ok = u8>> {
    stream: S,
    head: Option<u8>,
    sum: u8,
}

impl<S: TryByteStream<Ok = u8>> XorSumPushBack<S> {
    /// The wrapped stream.
    pub closed spec fn source(&self) -> S {
        self.stream
    }

    /// The byte waiting in the slot, if any.
    pub closed spec fn held(&self) -> Option<u8> {
        self.head
    }

    /// The running checksum.
    pub closed spec fn checksum(&self) -> u8 {
        self.sum
    }

    pub fn new(stream: S, initial_sum: u8) -> (r: Self)
        ensures
            r.source() == stream,
            r.held() is None,
            r.checksum() == initial_sum,
    {
        XorSumPushBack { stream, head: None, sum: initial_sum }
    }

    /// Starts the checksum again from `initial_sum`.
    pub fn reset_sum(&mut self, initial_sum: u8)
        ensures
            final(self).checksum() == initial_sum,
            final(self).source() == old(self).source(),
            final(self).held() == old(self).held(),
    {
        self.sum = initial_sum;
    }

    pub fn sum(&self) -> (r: u8)
        ensures
            r == self.checksum(),
    {
        self.sum
    }
}

impl<S: TryByteStream<Ok = u8>> PushBackable for XorSumPushBack<S> {
    type Item = u8;

    open spec fn held_item(&self) -> Option<u8> {
        self.held()
    }

    /// `v` is folded into the checksum at once and takes the slot; whatever
    /// the slot held goes back to the caller; the wrapped stream is left alone.
    open spec fn push_back_post(pre: Self, v: u8, post: Self, prev: Option<u8>) -> bool {
        &&& prev == pre.held()
        &&& post.held() == Some(v)
        &&& post.source() == pre.source()
        &&& post.checksum() == pre.checksum() ^ v
    }

    fn push_back(&mut self, v: u8) -> (prev: Option<u8>) {
        self.sum = self.sum ^ v;
        let prev = self.head.take();
        self.head = Some(v);
        prev
    }
}

impl<S: TryByteStream<Ok = u8>> ByteStream for XorSumPushBack<S> {
    type Item = Result<u8, S::Error>;

    /// A held byte comes out first, with the checksum left as it is; otherwise
    /// the wrapped stream's answer is passed on, and a byte in it is folded in.
    open spec fn next_post(pre: Self, post: Self, r: Option<Result<u8, S::Error>>) -> bool {
        &&& post.held() is None
        &&& match pre.held() {
            Some(v) => {
                &&& r == Some(Ok::<u8, S::Error>(v))
                &&& post.source() == pre.source()
                &&& post.checksum() == pre.checksum()
            },
            None => {
                &&& S::try_next_post(pre.source(), post.source(), r)
                &&& post.checksum() == match r {
                    Some(Ok(b)) => pre.checksum() ^ b,
                    _ => pre.checksum(),
                }
            },
        }
    }

    fn next(&mut self) -> (r: Option<Result<u8, S::Error>>) {
        if let Some(v) = self.head.take() {
            return Some(Ok(v));
        }
        let r = self.stream.try_next();
        if let Some(Ok(b)) = &r {
            self.sum = self.sum ^ *b;
        }
        r
    }
}

impl<S: FiniteStream<Ok = u8>> FiniteStream for XorSumPushBack<S> {
    open spec fn remaining(&self) -> nat {
        self.source().remaining() + if self.held() is Some { 1nat } else { 0nat }
    }

    proof fn lemma_next_shrinks(pre: Self, post: Self, r: Option<Result<u8, S::Error>>) {
        if pre.held() is None {
            S::lemma_next_shrinks(pre.source(), post.source(), r);
        }
    }
}

} // verus!

verus! {

/// With nothing held, a run of `XorSumPushBack` is the wrapped stream's own
/// run: every item comes from it, unchanged and in order, and the slot stays
/// empty.
pub proof fn lemma_xor_forwarding_identity<S: TryByteStream<Ok = u8>>(
    states: Seq<XorSumPushBack<S>>,
    items: Seq<Result<u8, S::Error>>,
)
    requires
        is_run(states, items),
        states[0].held() is None,
    ensures
        forall|i: int| 0 <= i < states.len() ==> (#[trigger] states[i]).held() is None,
        forall|i: int|
            0 <= i < items.len() ==> S::try_next_post(
                states[i].source(),
                states[i + 1].source(),
                Some(#[trigger] items[i]),
            ),
{
    assert forall|i: int| 0 <= i < states.len() implies (#[trigger] states[i]).held() is None by {
        if i > 0 {
            let j = i - 1;
            assert(XorSumPushBack::<S>::next_post(states[j], states[j + 1], Some(items[j])));
        }
    }
    assert forall|i: int| 0 <= i < items.len() implies S::try_next_post(
        states[i].source(),
        states[i + 1].source(),
        Some(#[trigger] items[i]),
    ) by {
        assert(XorSumPushBack::<S>::next_post(states[i], states[i + 1], Some(items[i])));
    }
}

/// With nothing held, after a run of bytes the checksum is the one it started
/// from with each of those bytes folded in by XOR.
pub proof fn lemma_checksum_of_run<S: TryByteStream<Ok = u8>>(
    states: Seq<XorSumPushBack<S>>,
    items: Seq<Result<u8, S::Error>>,
    bytes: Seq<u8>,
)
    requires
        is_run(states, items),
        states[0].held() is None,
        bytes.len() == items.len(),
        forall|i: int| 0 <= i < items.len() ==> #[trigger] items[i] == Ok::<u8, S::Error>(bytes[i]),
    ensures
        states.last().checksum() == xor_fold(states[0].checksum(), bytes),
        states.last().held() is None,
    decreases items.len(),
{
    lemma_xor_forwarding_identity(states, items);
    if items.len() > 0 {
        let n = items.len() - 1;
        let first = states.drop_last();
        assert(is_run(first, items.drop_last())) by {
            assert forall|i: int| 0 <= i < n implies #[trigger] XorSumPushBack::<S>::next_post(
                first[i],
                first[i + 1],
                Some(items.drop_last()[i]),
            ) by {
                assert(XorSumPushBack::<S>::next_post(states[i], states[i + 1], Some(items[i])));
            }
        }
        assert forall|i: int| 0 <= i < n implies #[trigger] items.drop_last()[i] == Ok::<u8, S::Error>(
            bytes.drop_last()[i],
        ) by {
            assert(items[i] == Ok::<u8, S::Error>(bytes[i]));
        }
        lemma_checksum_of_run(first, items.drop_last(), bytes.drop_last());
        assert(XorSumPushBack::<S>::next_post(states[n], states[n + 1], Some(items[n])));
        assert(items[n] == Ok::<u8, S::Error>(bytes[n]));
        assert(states[n].held() is None);
    }
}

/// After `reset_sum(init)` the checksum starts afresh: a run of bytes from
/// there leaves `init` with each of those bytes folded in, whatever the sum
/// was before the reset.
pub proof fn lemma_checksum_after_reset<S: TryByteStream<Ok = u8>>(
    p: XorSumPushBack<S>,
    init: u8,
    states: Seq<XorSumPushBack<S>>,
    items: Seq<Result<u8, S::Error>>,
    bytes: Seq<u8>,
)
    requires
        p.held() is None,
        is_run(states, items),
        states[0].checksum() == init,
        states[0].source() == p.source(),
        states[0].held() == p.held(),
        bytes.len() == items.len(),
        forall|i: int| 0 <= i < items.len() ==> #[trigger] items[i] == Ok::<u8, S::Error>(bytes[i]),
    ensures
        states.last().checksum() == xor_fold(init, bytes),
{
    lemma_checksum_of_run(states, items, bytes);
}

/// Pushing back `v` folds it into the checksum at once; handing it out again
/// leaves the checksum as it is, and the wrapped stream goes on from where it
/// was.
pub proof fn lemma_push_back_checksum<S: TryByteStream<Ok = u8>>(
    p: XorSumPushBack<S>,
    v: u8,
    prev: Option<u8>,
    q: XorSumPushBack<S>,
    r: Option<Result<u8, S::Error>>,
    q2: XorSumPushBack<S>,
)
    requires
        XorSumPushBack::<S>::push_back_post(p, v, q, prev),
        XorSumPushBack::<S>::next_post(q, q2, r),
    ensures
        q.checksum() == p.checksum() ^ v,
        r == Some(Ok::<u8, S::Error>(v)),
        q2.checksum() == q.checksum(),
        q2.source() == p.source(),
        q2.held() is None,
{
}

/// Two push-backs in a row: the second hands back the first value, and only
/// the second stays held.
pub proof fn lemma_xor_single_slot_overwrite<S: TryByteStream<Ok = u8>>(
    p: XorSumPushBack<S>,
    v1: u8,
    prev1: Option<u8>,
    q: XorSumPushBack<S>,
    v2: u8,
    prev2: Option<u8>,
    q2: XorSumPushBack<S>,
)
    requires
        XorSumPushBack::<S>::push_back_post(p, v1, q, prev1),
        XorSumPushBack::<S>::push_back_post(q, v2, q2, prev2),
    ensures
        prev2 == Some(v1),
        q2.held() == Some(v2),
        q2.source() == p.source(),
{
}

/// Over a `VecStream`, once `None` has come out with nothing held, `None`
/// comes out again and the checksum stays put.
pub proof fn lemma_end_is_sticky_xor<E>(
    p: XorSumPushBack<VecStream<u8, E>>,
    q: XorSumPushBack<VecStream<u8, E>>,
    q2: XorSumPushBack<VecStream<u8, E>>,
    r: Option<Result<u8, E>>,
)
    requires
        XorSumPushBack::<VecStream<u8, E>>::next_post(p, q, None),
        XorSumPushBack::<VecStream<u8, E>>::next_post(q, q2, r),
    ensures
        r is None,
        q2.held() is None,
        q2.checksum() == q.checksum(),
        q2.source().pending().len() == 0,
{
    lemma_end_is_sticky(p.source(), q.source(), q2.source(), r);
}

} // verus!
