use cube_timer::arbiter::BusArbiter;
use cube_timer::log_store::{append_chunk, LogStore, StorageError};

#[test]
fn write_then_read_round_trips() {
    let mut s = LogStore::new();
    assert_eq!(s.write(b"LOG.TXT", b"1,20\n"), Ok(()));
    let r = s.read(b"LOG.TXT").unwrap();
    assert_eq!(r.as_slice(), b"1,20\n");
}

#[test]
fn missing_record_is_file_open_failed() {
    let s = LogStore::new();
    assert_eq!(s.read(b"LOG.TXT"), Err(StorageError::FileOpenFailed));
}

#[test]
fn appends_accumulate_in_order() {
    let mut s = LogStore::new();
    assert_eq!(s.write(b"LOG.TXT", b"1,20\n"), Ok(()));
    assert_eq!(s.write(b"LOG.TXT", b"2,31\n"), Ok(()));
    assert_eq!(s.write(b"LOG.TXT", b"5,15\n"), Ok(()));
    let r = s.read(b"LOG.TXT").unwrap();
    assert_eq!(r.as_slice(), b"1,20\n2,31\n5,15\n");
}

#[test]
fn records_under_different_names_stay_apart() {
    let mut s = LogStore::new();
    assert_eq!(s.write(b"A.TXT", b"aaa"), Ok(()));
    assert_eq!(s.write(b"B.TXT", b"bbb"), Ok(()));
    assert_eq!(s.write(b"A.TXT", b"AAA"), Ok(()));
    assert_eq!(s.read(b"A.TXT").unwrap().as_slice(), b"aaaAAA");
    assert_eq!(s.read(b"B.TXT").unwrap().as_slice(), b"bbb");
}

#[test]
fn record_at_capacity_reads_back_whole() {
    let mut s = LogStore::new();
    let payload = [7u8; 256];
    assert_eq!(s.write(b"FULL.BIN", &payload), Ok(()));
    let r = s.read(b"FULL.BIN").unwrap();
    assert_eq!(r.len(), 256);
    assert_eq!(r.as_slice(), &payload[..]);
}

#[test]
fn oversized_record_is_buffer_overflow_not_truncation() {
    let mut s = LogStore::new();
    let payload = [9u8; 257];
    assert_eq!(s.write(b"BIG.BIN", &payload), Ok(()));
    assert_eq!(s.read(b"BIG.BIN"), Err(StorageError::BufferOverflow));
    // The store itself is intact and stays usable.
    assert_eq!(s.write(b"OK.BIN", b"ok"), Ok(()));
    assert_eq!(s.read(b"OK.BIN").unwrap().as_slice(), b"ok");
}

#[test]
fn two_serialized_writes_never_interleave() {
    // Two tasks each hand the store one whole payload; whichever order the
    // transactions serialize in, the record is one payload followed by the
    // other, never a byte-interleaving of the two.
    let a = b"1,20\n".to_vec();
    let b = b"4,99\n".to_vec();

    let mut first_a = LogStore::new();
    first_a.write(b"LOG.TXT", &a).unwrap();
    first_a.write(b"LOG.TXT", &b).unwrap();
    assert_eq!(first_a.read(b"LOG.TXT").unwrap().as_slice(), b"1,20\n4,99\n");

    let mut first_b = LogStore::new();
    first_b.write(b"LOG.TXT", &b).unwrap();
    first_b.write(b"LOG.TXT", &a).unwrap();
    assert_eq!(first_b.read(b"LOG.TXT").unwrap().as_slice(), b"4,99\n1,20\n");
}

#[test]
fn chunk_that_fits_is_appended_whole() {
    let mut buf: heapless::Vec<u8, 256> = heapless::Vec::new();
    assert_eq!(append_chunk(&mut buf, b"abc"), Ok(()));
    assert_eq!(append_chunk(&mut buf, b"def"), Ok(()));
    assert_eq!(buf.as_slice(), b"abcdef");
}

#[test]
fn chunk_past_capacity_is_refused_and_buffer_kept() {
    let mut buf: heapless::Vec<u8, 256> = heapless::Vec::new();
    let chunk = [1u8; 200];
    assert_eq!(append_chunk(&mut buf, &chunk), Ok(()));
    let too_much = [2u8; 100];
    assert_eq!(
        append_chunk(&mut buf, &too_much),
        Err(StorageError::BufferOverflow)
    );
    // Nothing partial: the buffer still holds exactly the first chunk.
    assert_eq!(buf.as_slice(), &chunk[..]);
}

#[test]
fn bus_is_granted_exactly_when_free() {
    let mut bus = BusArbiter::new();
    assert!(bus.try_acquire());
    // A second task is refused while the transaction is in flight.
    assert!(!bus.try_acquire());
    bus.release();
    assert!(bus.try_acquire());
}
