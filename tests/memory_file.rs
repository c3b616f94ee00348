use allium::memory_file::{MemoryFile, Seek};

#[test]
fn test_works() {
    let v = [0, 1, 2, 3, 4, 5];
    let f = MemoryFile::new(v.as_slice());
    let mut head = f.head().expect("Failed to get head of memoryfile");

    let mut i = 0;
    while let Some(c) = &head {
        let data = c.data().unwrap();
        assert!(i == data);
        i += 1;
        head = c.seek(Seek::Right(1)).expect("Failed to seek right");
    }
}

#[test]
fn memory_cursors_seek_both_ways() {
    let v = [10u8, 20, 30];
    let f = MemoryFile::new(v.as_slice());
    let head = f.head().unwrap().unwrap();
    let last = head.seek(Seek::Right(2)).unwrap().unwrap();
    assert_eq!(last.data().unwrap(), 30);
    assert!(last.seek(Seek::Right(1)).unwrap().is_none());
    assert_eq!(last.seek(Seek::Left(2)).unwrap().unwrap().data().unwrap(), 10);
    assert!(last.seek(Seek::Left(3)).unwrap().is_none());
    assert!(last.seek(Seek::Right(usize::MAX)).is_err());
    let empty: [u8; 0] = [];
    assert!(MemoryFile::new(empty.as_slice()).head().unwrap().is_none());
}
