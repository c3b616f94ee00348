use allium::cached_read_file::{CachedReadFile, CHUNK_SIZE};

fn load(id: u64, bytes: &[u8]) -> CachedReadFile {
    let mut file = CachedReadFile::new(id);
    for chunk in bytes.chunks(CHUNK_SIZE) {
        file.absorb(chunk);
    }
    file.absorb(&[]);
    file
}

#[test]
fn output_is_correct() {
    let range = 0..=0xFFu8;
    let memory = range.collect::<Vec<u8>>();
    let file = load(1, &memory);
    let mut head = file
        .start()
        .expect("Error getting first value")
        .expect("Found <eof>");

    for c in 0..0xFFu8 {
        assert!(c == head.data().expect("File is missing data"));

        head = head
            .next()
            .expect("Error getting value")
            .expect("Found <eof>");
    }

    assert!(
        head.next().expect("Error getting last value").is_none(),
        "Did not find <eof>"
    )
}

#[test]
fn retraverses() {
    let range = 0..=0x10u8;
    let memory = range.collect::<Vec<u8>>();
    let file = load(1, &memory);
    let mut head = file
        .start()
        .expect("Error getting start value")
        .expect("Found <eof>");

    for c in 0..0x10u8 {
        assert!(c == head.data().expect("File is missing data"));

        head = head
            .next()
            .expect("Error getting value")
            .expect("Found <eof>");
    }

    let last = head;

    head = file
        .start()
        .expect("Error getting start value a second time")
        .expect("Found <eof> at second start");

    for c in 0..0x10u8 {
        assert!(c == head.data().expect("File is missing data"));

        head = head
            .next()
            .expect("Error getting value")
            .expect("Found <eof>");
    }

    assert!(last == head, "Ends were not equal");

    assert!(
        head.next()
            .expect("Error getting first last value")
            .is_none(),
        "Did not find <eof> at first end"
    );

    assert!(
        last.next()
            .expect("Error getting first last value")
            .is_none(),
        "Did not find <eof> at second end"
    );
}

#[test]
fn equality() {
    let range = 0..=0x10u8;
    let memory = range.collect::<Vec<u8>>();
    let file = load(1, &memory);
    let mut head = file
        .start()
        .expect("Error getting start value")
        .expect("Found <eof>");

    let mut cursors = vec![head.clone()];
    let mut spans = vec![head
        .span_to(&head)
        .expect("Failed to create span to self")];

    for c in 0..0x10u8 {
        assert!(c == head.data().expect("File is missing data"));

        head = head
            .next()
            .expect("Error getting value")
            .expect("Found <eof>");

        assert!(head == head);
        assert!(cursors.iter().all(|past| past != &head));
        cursors.push(head.clone());

        for span in cursors.iter().map(|past| past.span_to(&head).unwrap()) {
            spans.push(span);
        }
    }

    for span in spans.iter() {
        assert!(
            spans.iter().filter(|other| &span == other).count() == 1,
            "More than one span was equivalent"
        );
    }
}

#[test]
fn pending_until_the_stream_is_exhausted() {
    let mut file = CachedReadFile::new(7);
    assert!(file.wants(1));
    assert!(matches!(file.start(), Err(allium::error::AlliumError::Pending(0))));
    file.absorb(&[1, 2]);
    {
        let head = file.start().unwrap().unwrap();
        let second = head.next().unwrap().unwrap();
        assert!(matches!(second.next(), Err(allium::error::AlliumError::Pending(2))));
    }
    file.absorb(&[]);
    assert!(file.is_exhausted());
    assert!(!file.wants(10));
    let head = file.start().unwrap().unwrap();
    let second = head.next().unwrap().unwrap();
    assert!(second.next().unwrap().is_none());
    let span = head.span_to(&second).unwrap();
    assert_eq!(span.len(), 2);
    assert_eq!(span.data(), vec![1, 2]);
    assert_eq!(head.span_to(&head).unwrap().len(), 1);
    assert!(matches!(
        second.span_to(&head),
        Err(allium::error::AlliumError::NegativeLengthSpan)
    ));
}

#[test]
fn caches_with_one_id_but_other_bytes_do_not_mix() {
    let a = load(1, &[1, 2, 3]);
    let b = load(1, &[9, 9, 9]);
    let ca = a.start().unwrap().unwrap();
    let cb = b.start().unwrap().unwrap();
    assert!(matches!(ca.span_to(&cb), Err(allium::error::AlliumError::SpanMismatch(_, _))));
    assert!(ca != cb);
    assert!(ca.partial_cmp(&cb).is_none());
    let c = load(1, &[1, 2, 3]);
    assert!(ca == c.start().unwrap().unwrap());
}
