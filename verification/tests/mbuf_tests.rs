//! Tests of the packet buffer and its edit primitives.

use safebricks::buffer::{
    alloc_bytes, dealloc, read_slice, read_u16, read_u32, read_u8, realloc, trim, write_slice,
    write_u16, write_u32, write_u8, BufferError,
};
use safebricks::mbuf::{mbuf_free_bulk, MBuf, MAX_MBUF_SIZE};

fn bytes_of(m: &MBuf) -> Vec<u8> {
    read_slice(m, 0, m.data_len()).unwrap()
}

#[test]
fn mbuf_new_lengths() {
    let m = MBuf::new(64);
    assert_eq!(m.data_len(), 64);
    assert_eq!(m.pkt_len(), 64);
    assert_eq!(m.buf_len(), MAX_MBUF_SIZE as usize);
    assert!(bytes_of(&m).iter().all(|b| *b == 0));
}

#[test]
fn mbuf_add_remove_end() {
    let mut m = MBuf::new(10);
    assert_eq!(m.add_data_end(5), 5);
    assert_eq!(m.data_len(), 15);
    assert_eq!(m.remove_data_end(3), 3);
    assert_eq!(m.data_len(), 12);
    // shrinking by more than the live data fails and changes nothing
    assert_eq!(m.remove_data_end(100), 0);
    assert_eq!(m.data_len(), 12);
    // growing past the tailroom fails and changes nothing
    assert_eq!(m.add_data_end(MAX_MBUF_SIZE as usize), 0);
    assert_eq!(m.data_len(), 12);
}

#[test]
fn mbuf_add_remove_beginning() {
    let mut m = MBuf::new(10);
    // a fresh buffer has no headroom
    assert_eq!(m.add_data_beginning(1), 0);
    assert_eq!(m.remove_data_beginning(4), 4);
    assert_eq!(m.data_len(), 6);
    // the headroom given back can be reclaimed
    assert_eq!(m.add_data_beginning(2), 2);
    assert_eq!(m.data_len(), 8);
    assert_eq!(m.remove_data_beginning(100), 0);
}

#[test]
fn buffer_word_round_trips() {
    let mut m = MBuf::new(16);
    write_u8(&mut m, 0, 0xab).unwrap();
    write_u16(&mut m, 1, 0x1234).unwrap();
    write_u32(&mut m, 3, 0xdeadbeef).unwrap();
    assert_eq!(read_u8(&m, 0).unwrap(), 0xab);
    assert_eq!(read_u16(&m, 1).unwrap(), 0x1234);
    assert_eq!(read_u32(&m, 3).unwrap(), 0xdeadbeef);
    // big-endian order in the bytes
    assert_eq!(read_u8(&m, 1).unwrap(), 0x12);
    assert_eq!(read_u8(&m, 2).unwrap(), 0x34);
    assert_eq!(read_u8(&m, 3).unwrap(), 0xde);
    assert_eq!(read_u8(&m, 6).unwrap(), 0xef);
}

#[test]
fn buffer_errors() {
    let mut m = MBuf::new(8);
    assert_eq!(read_u8(&m, 8), Err(BufferError::OutOfBuffer(1)));
    assert_eq!(read_u16(&m, 7), Err(BufferError::OutOfBuffer(2)));
    assert_eq!(read_u32(&m, 6), Err(BufferError::OutOfBuffer(4)));
    assert_eq!(write_u8(&mut m, 8, 1), Err(BufferError::BadOffset(8)));
    assert_eq!(write_u16(&mut m, 7, 1), Err(BufferError::BadOffset(7)));
    match read_slice(&m, 9, 1) {
        Err(BufferError::BadOffset(9)) => {}
        other => panic!("unexpected: {:?}", other),
    }
    match read_slice(&m, 4, 5) {
        Err(BufferError::OutOfBuffer(5)) => {}
        other => panic!("unexpected: {:?}", other),
    }
}

#[test]
fn buffer_alloc_shifts_tail() {
    let mut m = MBuf::new(6);
    write_slice(&mut m, 0, &vec![1, 2, 3, 4, 5, 6]).unwrap();
    alloc_bytes(&mut m, 2, 3).unwrap();
    assert_eq!(m.data_len(), 9);
    let b = bytes_of(&m);
    assert_eq!(&b[0..2], &[1, 2]);
    assert_eq!(&b[5..9], &[3, 4, 5, 6]);
}

#[test]
fn buffer_dealloc_closes_gap() {
    let mut m = MBuf::new(6);
    write_slice(&mut m, 0, &vec![1, 2, 3, 4, 5, 6]).unwrap();
    dealloc(&mut m, 1, 2).unwrap();
    assert_eq!(bytes_of(&m), vec![1, 4, 5, 6]);
    // a gap past the live data is refused
    assert_eq!(dealloc(&mut m, 3, 2), Err(BufferError::NotResized));
    // an offset past the live data is a bad offset
    assert_eq!(dealloc(&mut m, 5, 1), Err(BufferError::BadOffset(5)));
}

#[test]
fn buffer_realloc_both_ways() {
    let mut m = MBuf::new(4);
    write_slice(&mut m, 0, &vec![9, 8, 7, 6]).unwrap();
    realloc(&mut m, 2, 2).unwrap();
    assert_eq!(m.data_len(), 6);
    realloc(&mut m, 2, -2).unwrap();
    assert_eq!(bytes_of(&m), vec![9, 8, 7, 6]);
    realloc(&mut m, 0, 0).unwrap();
    assert_eq!(m.data_len(), 4);
}

#[test]
fn buffer_trim_cuts_tail() {
    let mut m = MBuf::new(10);
    trim(&mut m, 4).unwrap();
    assert_eq!(m.data_len(), 4);
    assert_eq!(trim(&mut m, 4), Err(BufferError::NotResized));
    assert_eq!(trim(&mut m, 9), Err(BufferError::NotResized));
}

#[test]
fn free_bulk_consumes_all() {
    let mut pool = vec![MBuf::new(1), MBuf::new(2)];
    assert_eq!(mbuf_free_bulk(&mut pool), 0);
    assert!(pool.is_empty());
}
