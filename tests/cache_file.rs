use allium::cache_file::CacheFile;
use allium::memory_file::{MemoryFile, Seek};

#[test]
fn cache_retraverses_without_losing_items() {
    let v = [7u16, 8, 9];
    let upstream = MemoryFile::new(v.as_slice());
    let mut cache = CacheFile::new(upstream.head().unwrap());
    let head = cache.head().unwrap().unwrap();
    assert_eq!(head.data(&mut cache).unwrap(), 7);
    let last = head.seek(Seek::Right(2), &mut cache).unwrap().unwrap();
    assert_eq!(last.data(&mut cache).unwrap(), 9);
    assert!(last.seek(Seek::Right(1), &mut cache).unwrap().is_none());
    let back = last.seek(Seek::Left(1), &mut cache).unwrap().unwrap();
    assert_eq!(back.data(&mut cache).unwrap(), 8);
    assert!(back.seek(Seek::Left(2), &mut cache).unwrap().is_none());
    assert!(cache.ensure_len(3).unwrap());
    assert!(!cache.ensure_len(4).unwrap());
    let empty: [u16; 0] = [];
    let upstream = MemoryFile::new(empty.as_slice());
    let mut cache = CacheFile::new(upstream.head().unwrap());
    assert!(cache.head().unwrap().is_none());
}

#[test]
fn cache_reports_ends_and_overflow() {
    let v = [1u8, 2];
    let upstream = MemoryFile::new(v.as_slice());
    let mut cache = CacheFile::new(upstream.head().unwrap());
    let head = cache.head().unwrap().unwrap();
    assert!(head.seek(Seek::Right(usize::MAX), &mut cache).is_err());
    assert!(head.seek(Seek::Right(5), &mut cache).unwrap().is_none());
    let far = head.seek(Seek::Right(1), &mut cache).unwrap().unwrap();
    assert_eq!(far.data(&mut cache).unwrap(), 2);
    assert!(!cache.ensure_len(3).unwrap());
}
