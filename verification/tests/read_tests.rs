use std::borrow::Cow;

use parsio::{DepthAwareReader, ErrorKind, Read, ReadError};

fn eof() -> ReadError {
    ReadError::IoError(ErrorKind::UnexpectedEof)
}

#[test]
fn slice_peek_does_not_advance() {
    let data: &[u8] = &[7, 8, 9];
    let mut r = data;
    assert_eq!(r.peek_byte().unwrap(), 7);
    assert_eq!(r.peek_byte().unwrap(), 7);
    assert_eq!(r.read_byte().unwrap(), 7);
    assert_eq!(r.peek_byte().unwrap(), 8);
    assert_eq!(r, &[8, 9][..]);
}

#[test]
fn slice_peek_and_read_byte_on_empty_fail_with_eof() {
    let mut r: &[u8] = &[];
    assert_eq!(r.peek_byte().unwrap_err(), eof());
    assert_eq!(r.read_byte().unwrap_err(), eof());
}

#[test]
fn slice_advance() {
    let data: &[u8] = &[1, 2, 3, 4];
    let mut r = data;
    r.advance(3).unwrap();
    assert_eq!(r, &[4][..]);
    assert_eq!(r.advance(2).unwrap_err(), eof());
    assert_eq!(r, &[4][..]);
    r.advance(1).unwrap();
    assert!(r.is_empty());
    r.advance(0).unwrap();
}

#[test]
fn slice_read_slice_borrows() {
    let data: &[u8] = &[1, 2, 3, 4, 5];
    let mut r = data;
    let s = r.read_slice(2).unwrap();
    assert!(matches!(s, Cow::Borrowed(_)));
    assert_eq!(&*s, &[1, 2]);
    assert_eq!(r, &[3, 4, 5][..]);
    assert_eq!(r.read_slice(4).unwrap_err(), eof());
    assert_eq!(r, &[3, 4, 5][..]);
    assert_eq!(&*r.read_slice(0).unwrap(), &[] as &[u8]);
}

#[test]
fn slice_read_array() {
    let data: &[u8] = &[1, 2, 3, 4, 5];
    let mut r = data;
    let a = r.read_array::<3>().unwrap();
    assert!(matches!(a, Cow::Borrowed(_)));
    assert_eq!(*a, [1, 2, 3]);
    assert_eq!(r.read_array::<3>().unwrap_err(), eof());
    assert_eq!(*r.read_array::<2>().unwrap(), [4, 5]);
    assert!(r.is_empty());
}

#[test]
fn slice_read_till_eof() {
    let data: &[u8] = &[1, 2, 3];
    let mut r = data;
    r.advance(1).unwrap();
    assert_eq!(&*r.read_till_eof().unwrap(), &[2, 3]);
    assert!(r.is_empty());
    assert_eq!(&*r.read_till_eof().unwrap(), &[] as &[u8]);
    assert_eq!(r.peek_byte().unwrap_err(), eof());
}

#[test]
fn vec_reads_from_front() {
    let mut v: Vec<u8> = vec![10, 20, 30, 40, 50, 60];
    assert_eq!(Read::peek_byte(&mut v).unwrap(), 10);
    assert_eq!(Read::read_byte(&mut v).unwrap(), 10);
    assert_eq!(v, vec![20, 30, 40, 50, 60]);
    Read::advance(&mut v, 2).unwrap();
    assert_eq!(v, vec![40, 50, 60]);
    let s = Read::read_slice(&mut v, 1).unwrap();
    assert!(matches!(s, Cow::Owned(_)));
    assert_eq!(&*s, &[40]);
    let a = Read::read_array::<1>(&mut v).unwrap();
    assert_eq!(*a, [50]);
    assert_eq!(&*Read::read_till_eof(&mut v).unwrap(), &[60]);
    assert!(v.is_empty());
}

#[test]
fn vec_errors_leave_data() {
    let mut v: Vec<u8> = vec![1, 2];
    assert_eq!(Read::advance(&mut v, 3).unwrap_err(), eof());
    assert_eq!(Read::read_slice(&mut v, 3).unwrap_err(), eof());
    assert_eq!(Read::read_array::<3>(&mut v).unwrap_err(), eof());
    assert_eq!(v, vec![1, 2]);
    let mut empty: Vec<u8> = Vec::new();
    assert_eq!(Read::peek_byte(&mut empty).unwrap_err(), eof());
    assert_eq!(Read::read_byte(&mut empty).unwrap_err(), eof());
}

#[test]
fn cow_reads_as_what_it_holds() {
    let data: &[u8] = &[1, 2, 3, 4];
    let mut borrowed: Cow<[u8]> = Cow::Borrowed(data);
    assert_eq!(borrowed.read_byte().unwrap(), 1);
    let s = borrowed.read_slice(2).unwrap();
    assert!(matches!(s, Cow::Borrowed(_)));
    assert_eq!(&*s, &[2, 3]);
    assert_eq!(&*borrowed, &[4]);

    let mut owned: Cow<[u8]> = Cow::Owned(vec![5, 6, 7, 8]);
    assert_eq!(owned.peek_byte().unwrap(), 5);
    owned.advance(1).unwrap();
    assert_eq!(*owned.read_array::<2>().unwrap(), [6, 7]);
    assert_eq!(&*owned.read_till_eof().unwrap(), &[8]);
    assert_eq!(owned.read_byte().unwrap_err(), eof());
}

#[test]
fn depth_aware_reader_delegates_reads() {
    let data: &[u8] = &[1, 2, 3, 4];
    let mut r = DepthAwareReader::from_reader(data);
    assert_eq!(r.peek_byte().unwrap(), 1);
    assert_eq!(r.read_byte().unwrap(), 1);
    r.advance(1).unwrap();
    assert_eq!(*r.read_array::<1>().unwrap(), [3]);
    assert_eq!(&*r.read_slice(1).unwrap(), &[4]);
    assert_eq!(&*r.read_till_eof().unwrap(), &[] as &[u8]);
    assert_eq!(r.read_slice(1).unwrap_err(), eof());
}

#[test]
fn depth_aware_reader_default_limit_is_256() {
    assert_eq!(DepthAwareReader::<&[u8]>::DEFAULT_LIMIT, 256);
    let data: &[u8] = &[];
    let mut r = DepthAwareReader::from_reader(data);
    let mut guard = r.enter().unwrap();
    for _ in 1..256 {
        guard = guard.enter().unwrap();
    }
    match guard.enter() {
        Err(e) => assert_eq!(e, ReadError::AllowedDepthOverflow { depth: 257, limit: 256 }),
        Ok(_) => panic!("depth 257 was allowed"),
    };
}

#[test]
fn depth_aware_reader_guard_drop_restores_depth() {
    let data: &[u8] = &[];
    let mut r = DepthAwareReader::from_reader_with_limit(data, 2);
    {
        let g = r.enter().unwrap();
        let g = g.enter().unwrap();
        drop(g);
    }
    // Both levels were left again: two more may be entered.
    let g = r.enter().unwrap();
    let g = g.enter().unwrap();
    match g.enter() {
        Err(e) => assert_eq!(e, ReadError::AllowedDepthOverflow { depth: 3, limit: 2 }),
        Ok(_) => panic!("depth 3 was allowed"),
    }
    // The failed enter dropped the guard, so the depth is back at 0.
    let g = r.enter().unwrap();
    assert!(g.enter().is_ok());
}

#[test]
fn depth_aware_reader_failed_enter_keeps_the_level() {
    let data: &[u8] = &[];
    let mut r = DepthAwareReader::from_reader_with_limit(data, 0);
    assert_eq!(
        r.enter().err().unwrap(),
        ReadError::AllowedDepthOverflow { depth: 1, limit: 0 }
    );
    assert_eq!(
        r.enter().err().unwrap(),
        ReadError::AllowedDepthOverflow { depth: 2, limit: 0 }
    );
}

#[test]
fn checkpoint_counts_bytes_read() {
    let data: &[u8] = &[1, 2, 3, 4, 5, 6, 7, 8, 9, 10];
    let mut r = data;
    r.advance(1).unwrap();
    let mut c = r.checkpoint();
    assert_eq!(c.amt_read(), 0);
    assert_eq!(c.peek_byte().unwrap(), 2);
    assert_eq!(c.amt_read(), 0);
    assert_eq!(c.read_byte().unwrap(), 2);
    assert_eq!(c.amt_read(), 1);
    c.advance(2).unwrap();
    assert_eq!(c.amt_read(), 3);
    assert_eq!(&*c.read_slice(2).unwrap(), &[5, 6]);
    assert_eq!(c.amt_read(), 5);
    assert_eq!(*c.read_array::<1>().unwrap(), [7]);
    assert_eq!(c.amt_read(), 6);
    assert_eq!(c.read_slice(5).unwrap_err(), eof());
    assert_eq!(c.amt_read(), 6);
    assert_eq!(&*c.read_till_eof().unwrap(), &[8, 9, 10]);
    assert_eq!(c.amt_read(), 9);
    let inner = c.into_inner();
    assert!(inner.is_empty());
}

#[test]
fn checkpoint_on_depth_aware_reader() {
    let mut r = DepthAwareReader::from_reader(vec![1u8, 2, 3]);
    let mut c = r.checkpoint();
    assert_eq!(c.read_byte().unwrap(), 1);
    assert_eq!(c.read_byte().unwrap(), 2);
    assert_eq!(c.amt_read(), 2);
    assert_eq!(c.into_inner().read_byte().unwrap(), 3);
}

#[test]
fn read_array_behaves_as_read_slice() {
    let data: &[u8] = &[9, 8, 7, 6];
    let mut by_slice = data;
    let mut by_array = data;
    let s = by_slice.read_slice(3).unwrap();
    let a = by_array.read_array::<3>().unwrap();
    assert_eq!(&*s, &a[..]);
    assert_eq!(by_slice, by_array);
    assert_eq!(by_slice.read_slice(2).unwrap_err(), by_array.read_array::<2>().unwrap_err());
    assert_eq!(by_slice, by_array);
}

#[test]
fn advance_consumes_what_read_slice_hands_out() {
    let mut by_advance: Vec<u8> = vec![1, 2, 3, 4, 5];
    let mut by_slice: Vec<u8> = vec![1, 2, 3, 4, 5];
    Read::advance(&mut by_advance, 2).unwrap();
    assert_eq!(&*Read::read_slice(&mut by_slice, 2).unwrap(), &[1, 2]);
    assert_eq!(by_advance, by_slice);
}

#[test]
fn reading_in_two_parts_is_reading_at_once() {
    let data: &[u8] = &[1, 2, 3, 4, 5, 6];
    let mut parts = data;
    let mut whole = data;
    let first = parts.read_slice(2).unwrap().into_owned();
    let second = parts.read_slice(3).unwrap().into_owned();
    let all = whole.read_slice(5).unwrap().into_owned();
    assert_eq!([first, second].concat(), all);
    assert_eq!(parts, whole);
    assert_eq!(parts, &[6][..]);
}

#[test]
fn vec_write_then_read_gives_the_bytes_back() {
    let mut v: Vec<u8> = vec![1, 2];
    parsio::Write::write_all(&mut v, &[3, 4, 5]).unwrap();
    assert_eq!(&*Read::read_slice(&mut v, 2).unwrap(), &[1, 2]);
    assert_eq!(&*Read::read_till_eof(&mut v).unwrap(), &[3, 4, 5]);
    assert!(v.is_empty());
}

#[test]
fn borrowed_and_owned_results() {
    let data: &[u8] = &[1, 2, 3];
    let mut r = data;
    let all = r.read_till_eof().unwrap();
    assert!(matches!(all, Cow::Borrowed(b) if b.as_ptr() == data.as_ptr()));

    let mut v: Vec<u8> = vec![1, 2, 3];
    assert!(matches!(Read::read_array::<2>(&mut v).unwrap(), Cow::Owned([1, 2])));
    assert_eq!(v, vec![3]);
    assert_eq!(Read::read_array::<2>(&mut v).unwrap_err(), eof());
    assert!(matches!(Read::read_till_eof(&mut v).unwrap(), Cow::Owned(_)));

    let mut borrowed: Cow<[u8]> = Cow::Borrowed(data);
    assert!(matches!(borrowed.read_array::<1>().unwrap(), Cow::Borrowed(_)));
    assert!(matches!(borrowed, Cow::Borrowed(_)));
    let mut owned: Cow<[u8]> = Cow::Owned(vec![1, 2]);
    assert!(matches!(owned.read_slice(1).unwrap(), Cow::Owned(_)));
    assert!(matches!(owned, Cow::Owned(_)));
}

#[test]
fn wrappers_keep_zero_copy() {
    let data: &[u8] = &[1, 2, 3, 4];
    let mut d = DepthAwareReader::from_reader(data);
    assert!(matches!(d.read_slice(1).unwrap(), Cow::Borrowed(b) if b.as_ptr() == data.as_ptr()));
    let mut c = d.checkpoint();
    assert!(matches!(c.read_array::<1>().unwrap(), Cow::Borrowed(_)));
    assert!(matches!(c.read_till_eof().unwrap(), Cow::Borrowed(_)));
    let mut owned = DepthAwareReader::from_reader(vec![1u8, 2]);
    assert!(matches!(owned.read_slice(1).unwrap(), Cow::Owned(_)));
}
