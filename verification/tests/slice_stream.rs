use memreader::error::MemReaderError;
use memreader::linux::MemReader;
use memreader::slice::MemorySlice;
use memreader::ProvidesSlices;

fn reader() -> MemReader {
    MemReader::new(4242, Ok(())).unwrap()
}

#[test]
fn new_slice_keeps_its_bounds() {
    let r = reader();
    let slice = MemorySlice::new(&r, 0x1000, 0x2000);
    assert_eq!(slice.start(), 0x1000);
    assert_eq!(slice.end(), 0x2000);
    assert_eq!(slice.reader().pid(), 4242);
}

#[test]
fn first_request_starts_at_start() {
    let r = reader();
    let slice = MemorySlice::new(&r, 0x1000, 0x2000);
    assert_eq!(slice.request(16), Some((0x1000, 16)));
}

#[test]
fn request_of_the_whole_range_is_granted() {
    let r = reader();
    let slice = MemorySlice::new(&r, 10, 20);
    assert_eq!(slice.request(10), Some((10, 10)));
    assert_eq!(slice.request(11), None);
}

#[test]
fn hello_is_streamed_then_the_stream_ends() {
    let r = reader();
    let base = 0x7f00_0000_usize;
    let mut slice = r.address_slice(base, base + 5);
    let mut buf = [0u8; 5];
    assert_eq!(slice.request(buf.len()), Some((base, 5)));
    let fetched = r.read_bytes(5, Ok(b"HELLO".to_vec()));
    let count = slice.read(&mut buf, fetched).unwrap();
    assert_eq!(count, 5);
    assert_eq!(buf, [72, 69, 76, 76, 79]);
    assert_eq!(slice.request(buf.len()), None);
    let again = slice.read(&mut buf, Ok(vec![1, 2, 3, 4, 5])).unwrap();
    assert_eq!(again, 0);
    assert_eq!(buf, [72, 69, 76, 76, 79]);
}

#[test]
fn even_chunks_are_read_in_full_then_one_empty_read() {
    let r = reader();
    let mut slice = MemorySlice::new(&r, 100, 112);
    let mut counts = Vec::new();
    let mut addresses = Vec::new();
    for round in 0..5u8 {
        let mut buf = [0u8; 4];
        if let Some((address, len)) = slice.request(buf.len()) {
            addresses.push(address);
            assert_eq!(len, 4);
        }
        let count = slice.read(&mut buf, Ok(vec![round; 4])).unwrap();
        if count > 0 {
            assert_eq!(buf, [round; 4]);
        } else {
            assert_eq!(buf, [0u8; 4]);
        }
        counts.push(count);
    }
    assert_eq!(counts, vec![4, 4, 4, 0, 0]);
    assert_eq!(addresses, vec![100, 104, 108]);
}

#[test]
fn single_byte_chunks_cover_the_range() {
    let r = reader();
    let mut slice = MemorySlice::new(&r, 7, 10);
    let mut seen = Vec::new();
    loop {
        let mut buf = [0u8; 1];
        let request = slice.request(1);
        let address = match request {
            Some((address, _)) => address,
            None => break,
        };
        let count = slice.read(&mut buf, Ok(vec![address as u8])).unwrap();
        assert_eq!(count, 1);
        seen.push(buf[0]);
    }
    assert_eq!(seen, vec![7, 8, 9]);
}

#[test]
fn straddling_read_reports_end_of_stream_at_once() {
    let r = reader();
    let mut slice = MemorySlice::new(&r, 0, 10);
    let mut buf = [9u8; 16];
    assert_eq!(slice.request(buf.len()), None);
    let count = slice.read(&mut buf, Ok(vec![1; 16])).unwrap();
    assert_eq!(count, 0);
    assert_eq!(buf, [9u8; 16]);
    assert_eq!(slice.request(10), Some((0, 10)));
}

#[test]
fn remainder_needs_a_smaller_buffer() {
    let r = reader();
    let mut slice = MemorySlice::new(&r, 0, 10);
    let mut buf = [0u8; 8];
    assert_eq!(slice.read(&mut buf, Ok(vec![5; 8])).unwrap(), 8);
    assert_eq!(slice.request(8), None);
    assert_eq!(slice.read(&mut buf, Ok(vec![6; 8])).unwrap(), 0);
    assert_eq!(buf, [5u8; 8]);
    let mut small = [0u8; 2];
    assert_eq!(slice.request(2), Some((8, 2)));
    assert_eq!(slice.read(&mut small, Ok(vec![7, 8])).unwrap(), 2);
    assert_eq!(small, [7, 8]);
    assert_eq!(slice.request(1), None);
}

#[test]
fn start_past_end_is_always_at_the_end() {
    let r = reader();
    let mut slice = MemorySlice::new(&r, 20, 10);
    assert_eq!(slice.request(0), None);
    assert_eq!(slice.request(1), None);
    let mut buf = [3u8; 0];
    assert_eq!(slice.read(&mut buf, Ok(Vec::new())).unwrap(), 0);
    let mut one = [3u8; 1];
    assert_eq!(slice.read(&mut one, Ok(vec![1])).unwrap(), 0);
    assert_eq!(one, [3]);
}

#[test]
fn empty_buffer_reads_nothing_and_stays() {
    let r = reader();
    let mut slice = MemorySlice::new(&r, 5, 5);
    let mut buf = [0u8; 0];
    assert_eq!(slice.request(0), Some((5, 0)));
    assert_eq!(slice.read(&mut buf, Ok(Vec::new())).unwrap(), 0);
    assert_eq!(slice.request(0), Some((5, 0)));
    assert_eq!(slice.request(1), None);
}

#[test]
fn short_fetch_still_moves_the_cursor_by_the_buffer_length() {
    let r = reader();
    let mut slice = MemorySlice::new(&r, 1000, 1010);
    let mut buf = [0xffu8; 5];
    let count = slice.read(&mut buf, Ok(vec![1, 2, 3])).unwrap();
    assert_eq!(count, 3);
    assert_eq!(buf, [1, 2, 3, 0xff, 0xff]);
    assert_eq!(slice.request(5), Some((1005, 5)));
}

#[test]
fn reader_error_is_handed_on_and_the_cursor_stays() {
    let r = reader();
    let mut slice = MemorySlice::new(&r, 1000, 1010);
    let mut buf = [0xffu8; 5];
    let failed = slice.read(&mut buf, Err(MemReaderError::UnsuccessfulRead(Some(1))));
    assert!(matches!(failed, Err(MemReaderError::UnsuccessfulRead(Some(1)))));
    assert_eq!(buf, [0xffu8; 5]);
    assert_eq!(slice.request(5), Some((1000, 5)));
    let short = slice.read(&mut buf, Err(MemReaderError::FewerBytesRead(2, vec![8, 9])));
    match short {
        Err(MemReaderError::FewerBytesRead(count, bytes)) => {
            assert_eq!(count, 2);
            assert_eq!(bytes, vec![8, 9]);
        }
        other => panic!("unexpected result: {:?}", other),
    }
    assert_eq!(slice.request(5), Some((1000, 5)));
}

#[test]
fn request_near_the_top_of_the_address_space_does_not_wrap() {
    let r = reader();
    let slice = MemorySlice::new(&r, usize::MAX - 4, usize::MAX);
    assert_eq!(slice.request(4), Some((usize::MAX - 4, 4)));
    assert_eq!(slice.request(5), None);
    assert_eq!(slice.request(usize::MAX), None);
}

#[test]
fn address_slice_len_ends_n_bytes_after_start() {
    let r = reader();
    let slice = r.address_slice_len(0x4000, 0x20);
    assert_eq!(slice.start(), 0x4000);
    assert_eq!(slice.end(), 0x4020);
    assert_eq!(slice.request(0x20), Some((0x4000, 0x20)));
    assert_eq!(slice.request(0x21), None);
}

#[test]
fn address_slice_takes_both_bounds() {
    let r = reader();
    let slice = r.address_slice(0x4000, 0x4008);
    assert_eq!(slice.start(), 0x4000);
    assert_eq!(slice.end(), 0x4008);
    assert_eq!(slice.reader().pid(), 4242);
}
