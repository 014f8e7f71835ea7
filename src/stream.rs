use vstd::prelude::*;
use crate::pushback::PushBack;
use crate::xorsum_pushback::XorSumPushBack;

verus! {

/// Marker for streams that can be driven by plain `&mut` access.
pub trait UnpinTrait {}

/// A source of items that ends with `None`.
pub trait ByteStream: Sized {
    /// Values yielded by the stream.
    type Item;

    /// Relates the stream before a call of `next`, the stream after it, and
    /// what the call returned. A stream that leaves it out promises nothing
    /// of its calls.
    open spec fn next_post(pre: Self, post: Self, r: Option<Self::Item>) -> bool {
        true
    }

    fn next(&mut self) -> (r: Option<Self::Item>)
        ensures
            Self::next_post(*old(self), *final(self), r),
    ;
}

impl<S: ByteStream> UnpinTrait for S {}

/// A stream whose items are `Result`s.
pub trait TryByteStream: Sized {
    /// The type of successful values.
    type Ok;
    /// The type of failures.
    type Error;

    spec fn try_next_post(pre: Self, post: Self, r: Option<Result<Self::Ok, Self::Error>>) -> bool;

    fn try_next(&mut self) -> (r: Option<Result<Self::Ok, Self::Error>>)
        ensures
            Self::try_next_post(*old(self), *final(self), r),
    ;
}

impl<S, T, E> TryByteStream for S where S: ByteStream<Item = Result<T, E>> + UnpinTrait {
    type Ok = T;
    type Error = E;

    open spec fn try_next_post(pre: Self, post: Self, r: Option<Result<T, E>>) -> bool {
        S::next_post(pre, post, r)
    }

    fn try_next(&mut self) -> (r: Option<Result<T, E>>) {
        self.next()
    }
}

/// Wrapping a stream in one of the push-back layers.
pub trait MyTryStreamExt: TryByteStream {
    fn push_backable(self) -> (r: PushBack<Self>)
        ensures
            r.source() == self,
            r.held() is None,
    {
        PushBack::new(self)
    }

    fn xor_summed_push_backable(self, initial_sum: u8) -> (r: XorSumPushBack<Self>)
        where
            Self: TryByteStream<Ok = u8>,
        ensures
            r.source() == self,
            r.held() is None,
            r.checksum() == initial_sum,
    {
        XorSumPushBack::new(self, initial_sum)
    }
}

impl<S: TryByteStream> MyTryStreamExt for S {}

/// A stream that can take back one item, to hand it out again first.
pub trait PushBackable: Sized {
    type Item;

    /// The item that was pushed back and not yet handed out again.
    spec fn held_item(&self) -> Option<Self::Item>;

    /// Relates the stream before a call of `push_back(v)`, the stream after
    /// it, and what the call returned.
    spec fn push_back_post(pre: Self, v: Self::Item, post: Self, prev: Option<Self::Item>) -> bool;

    /// Holds `v` as the next item; returns the item that was held before, if any.
    fn push_back(&mut self, v: Self::Item) -> (prev: Option<Self::Item>)
        ensures
            Self::push_back_post(*old(self), v, *final(self), prev),
            prev == old(self).held_item(),
            final(self).held_item() == Some(v),
    ;
}

/// A stream that runs out: every item it hands out brings it closer to its end.
pub trait FiniteStream: TryByteStream {
    /// An upper bound on the number of items still to come.
    spec fn remaining(&self) -> nat;

    proof fn lemma_next_shrinks(pre: Self, post: Self, r: Option<Result<Self::Ok, Self::Error>>)
        requires
            Self::try_next_post(pre, post, r),
            r is Some,
        ensures
            post.remaining() < pre.remaining(),
    ;
}

/// `states` is a run of `next` calls that yields `items`: the call made on
/// `states[i]` returns `Some(items[i])` and leaves `states[i + 1]`.
pub open spec fn is_run<S: ByteStream>(states: Seq<S>, items: Seq<S::Item>) -> bool {
    &&& states.len() == items.len() + 1
    &&& forall|i: int|
        0 <= i < items.len() ==> #[trigger] S::next_post(states[i], states[i + 1], Some(items[i]))
}

} // verus!
