use usb_station::service::checksum::Sha256Stream;
use usb_station::service::iso::IsoService;

const ABC_SHA256: &str = "ba7816bf8f01cfea414140de5dae2223b00361a396177a9cb410ff61f20015ad";

#[test]
fn stream_of_chunks_matches_one_shot_digest() {
    let mut s = Sha256Stream::new(None);
    s.update(b"a");
    s.update(b"");
    s.update(b"bc");
    assert_eq!(s.finish_hex(), ABC_SHA256);
    assert_eq!(IsoService::sha256_hex(b"abc"), ABC_SHA256);
}

#[test]
fn empty_stream_digest() {
    let s = Sha256Stream::new(Some(0));
    assert!(s.is_exhausted());
    assert_eq!(s.finish_hex(), "e3b0c44298fc1c149afbf4c8996fb92427ae41e4649b934ca495991b7852b855");
}

#[test]
fn raw_digest_is_32_bytes() {
    let mut s = Sha256Stream::new(None);
    s.update(b"abc");
    let d = s.finish();
    assert_eq!(d.len(), 32);
    assert_eq!(d[0], 0xba);
    assert_eq!(d[31], 0xad);
}

#[test]
fn limit_bounds_the_reads() {
    let mut s = Sha256Stream::new(Some(5));
    assert_eq!(s.next_read_len(65536), 5);
    s.update(b"ab");
    assert!(!s.is_exhausted());
    assert_eq!(s.next_read_len(65536), 3);
    assert_eq!(s.next_read_len(2), 2);
    s.update(b"c");
    assert_eq!(s.next_read_len(65536), 2);
    s.update(b"de");
    assert!(s.is_exhausted());
    assert_eq!(s.next_read_len(65536), 0);
    let mut t = Sha256Stream::new(None);
    t.update(b"abcde");
    assert_eq!(s.finish_hex(), t.finish_hex());
}

#[test]
fn unlimited_stream_reads_whole_buffers() {
    let s = Sha256Stream::new(None);
    assert!(!s.is_exhausted());
    assert_eq!(s.next_read_len(65536), 65536);
    assert_eq!(s.next_read_len(0), 0);
}
