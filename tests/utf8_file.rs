use allium::cached_read_file::{CachedReadFile, CHUNK_SIZE};
use allium::utf8_file::UTF8File;

fn byte_file(bytes: &[u8]) -> CachedReadFile {
    let mut file = CachedReadFile::new(3);
    for chunk in bytes.chunks(CHUNK_SIZE) {
        file.absorb(chunk);
    }
    file.absorb(&[]);
    file
}

#[test]
fn file_handles_all_valid_utf8() {
    let range = '\0'..'\u{10FFFF}';
    let string = range.collect::<String>();
    let bytes = string.bytes();
    let memory = bytes.collect::<Vec<u8>>();
    let byte_file = byte_file(&memory);
    let utf8_file = UTF8File::from(byte_file);

    let mut cursor = utf8_file
        .start()
        .expect("Failed to get first cursor in utf8 file")
        .expect("Found <eof> at start of utf8 file");

    for c in string.chars() {
        let data = cursor.data().expect("Failed to get data at cursor");
        assert!(c == data, "{c:?} !== {data:?}");

        cursor = match cursor.next().expect("Failed to get next cursor in file") {
            Some(c) => c,
            None => break,
        }
    }

    assert!(
        cursor.next().unwrap().is_none(),
        "Chars ended, but not at end of file"
    );
}

#[test]
fn utf8_file_file_errors_invalid_utf8() {
    let bytes = 0xF0..0xFFu8;
    let memory = bytes.collect::<Vec<u8>>();
    let byte_file = byte_file(&memory);
    let utf8_file = UTF8File::from(byte_file);

    assert!(utf8_file.start().is_err())
}

#[test]
fn utf8_file_file_skips_utf8_bom() {
    let string = "\u{FEFF}Hello world";
    let bytes = string.bytes();
    let memory = bytes.collect::<Vec<u8>>();
    let byte_file = byte_file(&memory);
    let utf8_file = UTF8File::from(byte_file);

    let mut cursor = utf8_file
        .start()
        .expect("Failed to get first cursor in utf8 file")
        .expect("Found <eof> at start of utf8 file");

    for c in string.chars().skip(1) {
        let data = cursor.data().expect("Failed to get data at cursor");
        assert!(c == data, "{c:?} !== {data:?}");

        cursor = match cursor.next().expect("Failed to get next cursor in file") {
            Some(c) => c,
            None => break,
        }
    }

    assert!(
        cursor.next().unwrap().is_none(),
        "Chars ended, but not at end of file"
    );
}

#[test]
fn utf8_spans_hold_their_scalars() {
    let utf8_file = UTF8File::from(byte_file("añb".as_bytes()));
    let a = utf8_file.start().unwrap().unwrap();
    let n = a.next().unwrap().unwrap();
    let b = n.next().unwrap().unwrap();
    let span = a.span_to(&b).unwrap();
    assert_eq!(span.data().unwrap(), vec!['a', 'ñ', 'b']);
    assert_eq!(span.len().unwrap(), 3);
    assert!(b.span_to(&a).is_err());
    let other = UTF8File::from(byte_file("añc".as_bytes()));
    assert!(matches!(other.deref(&a), Err(allium::error::AlliumError::ForeignCursor)));
    let (next, c) = utf8_file.deref(&n).unwrap();
    assert_eq!(c, 'ñ');
    assert_eq!(next.unwrap().data().unwrap(), 'b');
    assert!(utf8_file.deref(&b).unwrap().0.is_none());
    let bom_only = UTF8File::from(byte_file("\u{FEFF}".as_bytes()));
    assert!(bom_only.start().unwrap().is_none());
    let empty = UTF8File::from(byte_file(&[]));
    assert!(empty.start().unwrap().is_none());
}
