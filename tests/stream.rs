use core::convert::Infallible;
use pushback_stream::pushback::PushBack;
use pushback_stream::source::VecStream;
use pushback_stream::stream::{ByteStream, MyTryStreamExt, PushBackable};
use pushback_stream::utils::skip_whitespaces;
use pushback_stream::xorsum_pushback::XorSumPushBack;

fn ok_items<T: Copy>(values: &[T]) -> Vec<Result<T, Infallible>> {
    values.iter().copied().map(Result::<T, Infallible>::Ok).collect()
}

fn take<S: ByteStream>(s: &mut S, n: usize) -> Vec<S::Item> {
    let mut out = Vec::new();
    while out.len() < n {
        match s.next() {
            Some(item) => out.push(item),
            None => break,
        }
    }
    out
}

fn collect<S: ByteStream>(s: &mut S) -> Vec<S::Item> {
    take(s, usize::MAX)
}

#[test]
fn the_stream_works() {
    let data = ok_items(&[1, 2, 4, 8, 16, 32, 64, 128]);
    let mut strm = PushBack::new(VecStream::new(data.clone()));
    assert_eq!(collect(&mut strm), data);
}

#[test]
fn pushbacked_value_come_out_first() {
    let data = ok_items(&[1, 2, 4, 8, 16, 32, 64, 128]);
    let mut strm = PushBack::new(VecStream::new(data.clone()));
    assert_eq!(take(&mut strm, 4), &data[..=3]);

    strm.push_back(0xCC);

    assert_eq!(take(&mut strm, 4), ok_items(&[0xCC, 16, 32, 64]));
}

#[test]
fn the_stream_works_and_the_xorsum_is_computed() {
    let data = ok_items(&[1u8, 2, 4, 8, 16, 32, 64, 128]);
    let mut strm = XorSumPushBack::new(VecStream::new(data.clone()), 0);
    assert_eq!(collect(&mut strm), data);
    assert_eq!(strm.sum(), 0xFF);
}

#[test]
fn the_xorsum_can_be_reset() {
    let data = ok_items(&[1u8, 2, 4, 8, 16, 32, 64, 128]);
    let mut strm = XorSumPushBack::new(VecStream::new(data.clone()), 0);
    assert_eq!(take(&mut strm, 4), &data[..=3]);
    assert_eq!(strm.sum(), 0x0F);

    strm.reset_sum(0x30);

    assert_eq!(collect(&mut strm), &data[4..]);
    assert_eq!(strm.sum(), 0xC0);
}

#[test]
fn pushing_back_updates_the_xorsum() {
    let data = ok_items(&[1u8, 2, 4, 8, 16, 32, 64, 128]);
    let mut strm = XorSumPushBack::new(VecStream::new(data.clone()), 0);
    assert_eq!(take(&mut strm, 4), &data[..=3]);
    assert_eq!(strm.sum(), 0x0F);

    strm.push_back(0xCC);

    assert_eq!(strm.sum(), 0xC3);
    assert_eq!(take(&mut strm, 4), ok_items(&[0xCC, 16, 32, 64]));
}

#[test]
fn skips_white_spaces_and_pushes_back_the_first_non_space_byte() {
    let mut data = PushBack::new(VecStream::new(ok_items(b"      d")));
    skip_whitespaces(&mut data);
    assert_eq!(Some(Ok(b'd')), data.next());

    let mut data = XorSumPushBack::new(VecStream::new(ok_items(b"      d")), 0);
    skip_whitespaces(&mut data);
    assert_eq!(Some(Ok(b'd')), data.next());
}

#[test]
fn redelivered_value_is_not_folded_again() {
    let data = ok_items(&[1u8, 2, 4, 8, 16, 32, 64, 128]);
    let mut strm = XorSumPushBack::new(VecStream::new(data), 0);
    take(&mut strm, 4);
    strm.push_back(0xCC);
    assert_eq!(take(&mut strm, 1), ok_items(&[0xCC]));
    assert_eq!(strm.sum(), 0xC3);
    assert_eq!(collect(&mut strm), ok_items(&[16, 32, 64, 128]));
    assert_eq!(strm.sum(), 0xC3 ^ 0xF0);
}

#[test]
fn second_push_back_returns_the_first_value() {
    let mut strm = PushBack::new(VecStream::new(ok_items(&[7, 8])));
    assert_eq!(strm.push_back(1), None);
    assert_eq!(strm.push_back(2), Some(1));
    assert_eq!(collect(&mut strm), ok_items(&[2, 7, 8]));

    let mut strm = XorSumPushBack::new(VecStream::new(ok_items(&[7u8])), 0);
    assert_eq!(strm.push_back(0x10), None);
    assert_eq!(strm.push_back(0x01), Some(0x10));
    assert_eq!(strm.sum(), 0x11);
    assert_eq!(collect(&mut strm), ok_items(&[0x01, 7]));
    assert_eq!(strm.sum(), 0x16);
}

#[test]
fn end_of_sequence_repeats() {
    let mut strm = PushBack::new(VecStream::new(ok_items(&[3])));
    assert_eq!(strm.next(), Some(Ok(3)));
    assert_eq!(strm.next(), None);
    assert_eq!(strm.next(), None);
    assert_eq!(strm.next(), None);

    let mut strm = XorSumPushBack::new(VecStream::new(ok_items(&[3u8])), 0x40);
    assert_eq!(strm.next(), Some(Ok(3)));
    assert_eq!(strm.next(), None);
    assert_eq!(strm.next(), None);
    assert_eq!(strm.sum(), 0x43);
}

#[test]
fn empty_source_ends_at_once() {
    let mut strm = PushBack::new(VecStream::new(ok_items::<u8>(&[])));
    assert_eq!(strm.next(), None);
    strm.push_back(5);
    assert_eq!(strm.next(), Some(Ok(5)));
    assert_eq!(strm.next(), None);
}

#[test]
fn failures_are_forwarded_and_not_folded() {
    let data: Vec<Result<u8, &str>> = vec![Ok(1), Err("broken"), Ok(2)];
    let mut strm = PushBack::new(VecStream::new(data.clone()));
    assert_eq!(collect(&mut strm), data);

    let mut strm = XorSumPushBack::new(VecStream::new(data), 0);
    assert_eq!(strm.next(), Some(Ok(1)));
    assert_eq!(strm.next(), Some(Err("broken")));
    assert_eq!(strm.sum(), 1);
    assert_eq!(strm.next(), Some(Ok(2)));
    assert_eq!(strm.sum(), 3);
}

#[test]
fn skip_whitespaces_forwards_end_and_failure() {
    let mut data = PushBack::new(VecStream::new(ok_items(b"   ")));
    assert_eq!(skip_whitespaces(&mut data), None);
    assert_eq!(data.next(), None);

    let items: Vec<Result<u8, u32>> = vec![Ok(b' '), Err(9), Ok(b'x')];
    let mut data = PushBack::new(VecStream::new(items));
    assert_eq!(skip_whitespaces(&mut data), Some(Err(9)));
    assert_eq!(data.next(), Some(Ok(b'x')));

    let mut data = XorSumPushBack::new(VecStream::new(ok_items(b"  ab")), 0);
    assert_eq!(skip_whitespaces(&mut data), Some(Ok(())));
    assert_eq!(data.sum(), 0x20 ^ 0x20 ^ b'a' ^ b'a');
    assert_eq!(collect(&mut data), ok_items(b"ab"));
}

#[test]
fn extension_methods_wrap_a_stream() {
    let mut strm = VecStream::new(ok_items(&[1u8, 2])).push_backable();
    assert_eq!(strm.next(), Some(Ok(1)));

    let mut strm = VecStream::new(ok_items(&[1u8, 2])).xor_summed_push_backable(0x80);
    assert_eq!(collect(&mut strm), ok_items(&[1, 2]));
    assert_eq!(strm.sum(), 0x83);
}
