use nom_bufreader::error::Error;
use nom_bufreader::memory::MemorySource;
use nom_bufreader::outcome::ParseOutcome;
use nom_bufreader::reader::BufReader;

/// Recognizes one of the method tokens GET, POST and HEAD at the front of
/// the window.
fn method(window: &[u8]) -> ParseOutcome<String, ()> {
    for token in ["GET", "POST", "HEAD"] {
        let bytes = token.as_bytes();
        let seen = window.len().min(bytes.len());
        if window[..seen] == bytes[..seen] {
            return if seen == bytes.len() {
                ParseOutcome::Done(seen, token.to_string())
            } else {
                ParseOutcome::NeedMore(Some(bytes.len() - seen))
            };
        }
    }
    ParseOutcome::Recoverable(())
}

/// The same, from a parser that does not say how many bytes it misses.
fn method_without_estimate(window: &[u8]) -> ParseOutcome<String, ()> {
    match method(window) {
        ParseOutcome::NeedMore(_) => ParseOutcome::NeedMore(None),
        outcome => outcome,
    }
}

/// Wants `n` bytes and takes them all.
fn exactly(n: usize) -> impl Fn(&[u8]) -> ParseOutcome<Vec<u8>, ()> {
    move |window: &[u8]| {
        if window.len() >= n {
            ParseOutcome::Done(n, window[..n].to_vec())
        } else {
            ParseOutcome::NeedMore(Some(n - window.len()))
        }
    }
}

#[test]
fn a_source_gives_its_bytes_in_the_scheduled_pieces() {
    let mut source = MemorySource::new(b"abcdefgh".to_vec(), vec![2, 3]);
    assert_eq!(source.remaining(), 8);
    assert_eq!(source.read(100), b"ab");
    assert_eq!(source.read(100), b"cde");
    assert_eq!(source.remaining(), 3);
    // behind the schedule a read brings what is asked for
    assert_eq!(source.read(2), b"fg");
    assert_eq!(source.read(2), b"h");
    assert_eq!(source.read(2), b"");
    assert_eq!(source.remaining(), 0);
}

#[test]
fn a_read_brings_no_more_than_was_asked_for() {
    let mut source = MemorySource::new(b"abcdefgh".to_vec(), vec![5, 5]);
    assert_eq!(source.read(2), b"ab");
    // the rest of a piece is not kept for the next read: the next piece is
    assert_eq!(source.read(100), b"cdefg");
    assert_eq!(source.read(0), b"");
    assert_eq!(source.read(100), b"h");
}

#[test]
fn a_piece_of_size_zero_is_a_read_that_finds_nothing() {
    let mut source = MemorySource::new(b"ab".to_vec(), vec![0, 1]);
    assert_eq!(source.read(10), b"");
    assert_eq!(source.read(10), b"a");
    assert_eq!(source.read(10), b"b");
}

#[test]
fn a_method_token_in_two_pieces_is_recognized() {
    let source = MemorySource::new(b"GET /x HTTP/1.1\r\n".to_vec(), vec![2, 15]);
    let mut reader = BufReader::new(source);
    let token = reader.parse(method_without_estimate).unwrap();
    assert_eq!(token, "GET");
    assert_eq!(reader.buffer(), b" /x HTTP/1.1\r\n");
    assert_eq!(reader.get_ref().remaining(), 0);
}

#[test]
fn a_parser_that_says_what_it_misses_gets_a_whole_chunk_all_the_same() {
    let source = MemorySource::new(b"GET /x HTTP/1.1\r\n".to_vec(), vec![2, 15]);
    let mut reader = BufReader::new(source);
    let token = reader.parse(method).unwrap();
    assert_eq!(token, "GET");
    assert_eq!(reader.buffer(), b" /x HTTP/1.1\r\n");
    assert_eq!(reader.get_ref().remaining(), 0);
}

#[test]
fn ten_bytes_grow_a_window_of_four() {
    let input: Vec<u8> = (0u8..10).collect();
    let source = MemorySource::new(input.clone(), vec![1; 10]);
    let mut reader = BufReader::with_capacity(4, source);
    let shown = std::cell::RefCell::new(Vec::new());
    let result = reader.parse(|window: &[u8]| {
        shown.borrow_mut().push(window.to_vec());
        exactly(10)(window)
    });
    assert_eq!(result.unwrap(), input);
    let shown = shown.into_inner();
    assert_eq!(shown.len(), 11);
    for (k, window) in shown.iter().enumerate() {
        assert_eq!(window, &input[..k]);
    }
    assert_eq!(reader.buffer(), b"");
    assert_eq!(reader.get_ref().remaining(), 0);
}

#[test]
fn a_window_of_four_gives_ten_bytes_in_values_that_fit() {
    let input: Vec<u8> = (1u8..=10).collect();
    let mut small = BufReader::with_capacity(4, MemorySource::new(input.clone(), vec![1; 10]));
    let mut large = BufReader::with_capacity(64, MemorySource::new(input, vec![]));
    for first in [1u8, 4, 7] {
        let expected = vec![first, first + 1, first + 2];
        assert_eq!(small.parse(exactly(3)).unwrap(), expected);
        assert_eq!(large.parse(exactly(3)).unwrap(), expected);
    }
    assert_eq!(small.buffer(), b"");
    assert_eq!(large.buffer(), &[10u8]);
    assert_eq!(small.parse(exactly(1)).unwrap(), vec![10u8]);
    assert_eq!(large.parse(exactly(1)).unwrap(), vec![10u8]);
    assert!(matches!(small.parse(exactly(1)), Err(Error::Eof)));
    assert!(matches!(large.parse(exactly(1)), Err(Error::Eof)));
}

#[test]
fn every_schedule_of_pieces_gives_the_same_value() {
    let input = b"POST /form";
    for first in 1..input.len() {
        for second in 1..input.len() {
            let source = MemorySource::new(input.to_vec(), vec![first, second, 1, 1, 1]);
            let mut reader = BufReader::with_capacity(16, source);
            assert_eq!(reader.parse(method).unwrap(), "POST");
            let rest = reader.parse(exactly(6)).unwrap();
            assert_eq!(rest, b" /form");
            assert_eq!(reader.buffer(), b"");
        }
    }
}

#[test]
fn an_empty_source_ends_the_parse_with_eof() {
    let mut reader = BufReader::new(MemorySource::new(Vec::new(), Vec::new()));
    let result = reader.parse(|_: &[u8]| ParseOutcome::<(), ()>::NeedMore(None));
    assert!(matches!(result, Err(Error::Eof)));
    assert_eq!(reader.buffer(), b"");
}

#[test]
fn an_empty_source_behind_a_window_without_capacity_ends_with_eof_too() {
    let mut reader = BufReader::with_capacity(0, MemorySource::new(Vec::new(), Vec::new()));
    let result = reader.parse(|_: &[u8]| ParseOutcome::<(), ()>::NeedMore(None));
    assert!(matches!(result, Err(Error::Eof)));
}

#[test]
fn the_capacity_changes_no_result() {
    let input: Vec<u8> = (0u8..=255).collect();
    let mut results = Vec::new();
    for capacity in [0usize, 1, 4, 100, 8192] {
        let source = MemorySource::new(input.clone(), vec![3, 1, 7, 50, 2]);
        let mut reader = BufReader::with_capacity(capacity, source);
        let mut got = Vec::new();
        for n in [5usize, 1, 60, 190] {
            got.push(reader.parse(exactly(n)).unwrap());
        }
        assert!(matches!(reader.parse(exactly(1)), Err(Error::Eof)));
        results.push(got);
    }
    for got in &results {
        assert_eq!(got, &results[0]);
        assert_eq!(got.concat(), input);
    }
}

#[test]
fn a_parser_that_takes_nothing_leaves_the_window_alone() {
    let mut reader = BufReader::new(MemorySource::new(b"abc".to_vec(), vec![]));
    let first = reader.parse(|w: &[u8]| match w.first() {
        Some(byte) => ParseOutcome::<u8, ()>::Done(1, *byte),
        None => ParseOutcome::NeedMore(None),
    });
    assert_eq!(first.unwrap(), b'a');
    assert_eq!(reader.buffer(), b"bc");
    let n = reader.parse(|w: &[u8]| ParseOutcome::<usize, ()>::Done(0, w.len())).unwrap();
    assert_eq!(n, 2);
    assert_eq!(reader.buffer(), b"bc");
}

#[test]
fn a_rejected_window_stays_for_the_next_parser() {
    let mut reader = BufReader::new(MemorySource::new(b"PUT /x".to_vec(), vec![1, 1, 1]));
    // "P" may still become POST; "PU" cannot become any of the tokens
    assert!(matches!(reader.parse(method), Err(Error::Error(()))));
    assert_eq!(reader.buffer(), b"PU");
    assert_eq!(reader.parse(exactly(6)).unwrap(), b"PUT /x");
}

/// Gives the first byte where it is shown one byte or at least three, and
/// asks for more where it is shown none or two.
fn fickle(window: &[u8]) -> ParseOutcome<u8, ()> {
    if window.len() == 1 || window.len() >= 3 {
        ParseOutcome::Done(1, window[0])
    } else {
        ParseOutcome::NeedMore(None)
    }
}

#[test]
fn a_parser_that_asks_for_more_of_a_longer_window_gives_the_same_value() {
    for pieces in [vec![], vec![1, 1, 1], vec![2, 1], vec![1, 2], vec![2, 2], vec![3]] {
        let mut reader = BufReader::new(MemorySource::new(b"xyz".to_vec(), pieces));
        assert_eq!(reader.parse(fickle).unwrap(), b'x');
        let held = reader.buffer().len();
        let rest = reader.parse(exactly(2)).unwrap();
        assert_eq!(rest, b"yz");
        assert!(held <= 2);
    }
}

#[test]
fn a_small_window_fails_as_a_large_one_does() {
    let input = b"GET PUT GE".to_vec();
    let mut small = BufReader::with_capacity(4, MemorySource::new(input.clone(), vec![1; 10]));
    let mut large = BufReader::with_capacity(8192, MemorySource::new(input, vec![]));
    for reader in [&mut small, &mut large] {
        assert_eq!(reader.parse(method).unwrap(), "GET");
        assert_eq!(reader.parse(exactly(1)).unwrap(), b" ");
        assert!(matches!(reader.parse(method), Err(Error::Error(()))));
        assert_eq!(reader.parse(exactly(4)).unwrap(), b"PUT ");
        assert!(matches!(reader.parse(method), Err(Error::Eof)));
        assert_eq!(reader.buffer(), b"GE");
        assert_eq!(reader.get_ref().remaining(), 0);
    }
}
