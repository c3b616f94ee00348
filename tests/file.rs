use allium::cached_read_file::CHUNK_SIZE;
use allium::error::AlliumError;
use allium::file::File;

fn load(bytes: &[u8]) -> File {
    let mut file = File::new(1);
    for chunk in bytes.chunks(CHUNK_SIZE) {
        file.absorb(chunk);
    }
    file.absorb(&[]);
    file
}

#[test]
fn file_handles_valid_utf8() {
    let utf8_str = "⅏℁℀ⅽ℣⅏ⅶⅢ⅚ℹℜℙℐℴ⅄ⅽ℧ⅾ℧ℋⅣ℣ⅹ⅑ℽℽↀℨℋⅡℜⅱℋ℮ↆ℠ↃⅅↆⅮℇ℺Ⅱℿℰℯ⅚ℨⅥⅬℯⅿℐ℘℻⅊℔ⅪℚↇⅹℋℨⅣℹ℘↉⅒ⅸⅠK℺Kⅅ℈Ⅽℐⅴ™℟™ℶℾⅾ⅊⅛ℊℳⅺ℃ℱↀℬⅣⅽ℻⅟℞ↄ℩Ⅿⅸ℔⅜Ⅿℇ℗Ⅰ↊⅊ℳↃ℆ℭ℧ℵⅹℽↆÅↈℜℏⅼ℈ↁℊⅇ℘℃⅕Ⅎↁⅿ⅓℠ⅸℼↇⅻ℆Ⅷ℠℡ⅫⅬℊ⅃⅒ⅿↈℭℹℊ⅀ℤⅺ℧ℽ⅏Ⅹ℟№Ⅸⅷℭℐ℘ⅺ⅏Ⅱ⅀⅖ℌ⅘ⅳ⅔ℱ⅗⅍ℷ℻↋ℍ℁⅀Ⅷℛℯ⅓Ⅶℵℱℊↅ⅍ℇⅤ⅗⅑";
    let file = load(utf8_str.as_bytes());
    let mut cursor = file.start();

    for c in utf8_str.chars() {
        // unwrap here so that we can just fall off on the last char
        let curr = cursor.unwrap();
        let char_at = curr.char().unwrap();

        assert!(c == char_at, "{c:?} != {char_at:?}");
        cursor = curr.next();
    }

    assert!(cursor.is_err(), "Chars ended, but not at end of file");
}

#[test]
fn file_handles_all_utf8() {
    let range = '\0'..'\u{10FFFF}';
    let string = range.collect::<String>();
    let file = load(string.as_bytes());
    let mut cursor = file.start();

    for c in string.chars() {
        // unwrap here so that we can just fall off on the last char
        let curr = cursor.unwrap();
        let char_at = curr.char().unwrap();

        assert!(c == char_at, "{c:?} != {char_at:?}");
        cursor = curr.next();
    }

    assert!(cursor.is_err(), "Chars ended, but not at end of file");
}

#[test]
fn file_file_errors_invalid_utf8() {
    let bytes = (0xF0..0xFFu8).collect::<Vec<u8>>();
    let file = load(&bytes);

    assert!(file.start().is_err())
}

#[test]
fn file_file_skips_utf8_bom() {
    let string = "\u{FEFF}Hello world";
    let file = load(string.as_bytes());
    let mut cursor = file.start();

    for c in string.chars().skip(1) {
        let curr = cursor.unwrap();
        let char_at = curr.char().unwrap();

        assert!(c == char_at, "{c:?} != {char_at:?}");
        cursor = curr.next();
    }
    assert!(cursor.is_err());
}

#[test]
fn invalid_lead_byte_fails_the_first_decode() {
    let bytes = (0xF0..=0xFFu8).collect::<Vec<u8>>();
    let file = load(&bytes);
    assert!(matches!(file.char_at(0), Err(AlliumError::BadContinuationByte(0))));
    let file = load(&[0xFF, 0x41]);
    assert!(matches!(file.char_at(0), Err(AlliumError::InvalidStartByte(0))));
    let file = load(&[0x80]);
    assert!(matches!(file.start(), Err(AlliumError::InvalidStartByte(0))));
}

#[test]
fn decode_errors_name_their_cause() {
    let file = load(&[0xE2, 0x82]);
    assert!(matches!(file.char_at(0), Err(AlliumError::TruncatedSequence(0))));
    let file = load(&[0xED, 0xA0, 0x80]);
    assert!(matches!(file.char_at(0), Err(AlliumError::SurrogateCodepoint(0))));
    let file = load(&[0xF4, 0x90, 0x80, 0x80]);
    assert!(matches!(file.char_at(0), Err(AlliumError::CodepointOutOfRange(0))));
    let file = load(&[]);
    assert!(matches!(file.start(), Err(AlliumError::Eof)));
    let mut partial = File::new(2);
    partial.absorb(&[0xE2, 0x82]);
    assert!(matches!(partial.char_at(0), Err(AlliumError::Pending(2))));
    partial.absorb(&[0xAC]);
    assert_eq!(partial.char_at(0).unwrap(), (3, '€'));
}

#[test]
fn byte_spans_count_scalars() {
    let file = load("aé€𝄞b".as_bytes());
    let start = file.start().unwrap();
    let last = start
        .next()
        .unwrap()
        .next()
        .unwrap()
        .next()
        .unwrap()
        .next()
        .unwrap();
    let span = last.span_to(&start).unwrap();
    assert_eq!(span.byte_len(), 11);
    assert_eq!(span.char_len().unwrap(), 5);
    assert_eq!(span.chars().unwrap(), vec!['a', 'é', '€', '𝄞', 'b']);
    let other = File::new(9);
    let foreign = other.start();
    assert!(foreign.is_err());
    let twin = load("xé€𝄞b".as_bytes());
    let t = twin.start().unwrap();
    assert!(matches!(start.span_to(&t), Err(AlliumError::SpanMismatch(_, _))));
    assert!(start.partial_cmp(&t).is_none());
    assert!(start < last);
}
