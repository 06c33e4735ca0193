use nom_bufreader::window::ByteWindow;

#[test]
fn new_window_is_empty() {
    let w = ByteWindow::with_capacity(4);
    assert_eq!(w.window(), &[] as &[u8]);
    assert_eq!(w.len(), 0);
    assert_eq!(w.capacity(), 4);
    assert_eq!(w.room(), 4);
}

#[test]
fn append_puts_bytes_behind_the_window() {
    let mut w = ByteWindow::with_capacity(8);
    w.append(b"abc");
    w.append(b"de");
    assert_eq!(w.window(), b"abcde");
    assert_eq!(w.len(), 5);
    assert_eq!(w.capacity(), 8);
    assert_eq!(w.room(), 3);
}

#[test]
fn append_keeps_every_byte_and_the_window_grows() {
    let mut w = ByteWindow::with_capacity(4);
    w.append(b"abcdef");
    assert_eq!(w.window(), b"abcdef");
    assert_eq!(w.capacity(), 8);
    w.append(b"g");
    assert_eq!(w.window(), b"abcdefg");
    assert_eq!(w.capacity(), 8);
    w.append(b"hijklmnopqrstuvwxyz");
    assert_eq!(w.window(), b"abcdefghijklmnopqrstuvwxyz");
    assert_eq!(w.capacity(), 32);
}

#[test]
fn a_full_window_takes_one_more_byte() {
    let mut w = ByteWindow::with_capacity(4);
    w.append(b"abcd");
    assert_eq!(w.room(), 0);
    w.append(b"e");
    assert_eq!(w.window(), b"abcde");
    assert_eq!(w.len(), 5);
}

#[test]
fn append_shifts_before_it_grows() {
    let mut w = ByteWindow::with_capacity(4);
    w.append(b"abcd");
    w.consume(3);
    w.append(b"ef");
    assert_eq!(w.window(), b"def");
    assert_eq!(w.capacity(), 4);
    assert_eq!(w.room(), 1);
}

#[test]
fn consume_takes_bytes_from_the_front() {
    let mut w = ByteWindow::with_capacity(8);
    w.append(b"abcdef");
    w.consume(2);
    assert_eq!(w.window(), b"cdef");
    assert_eq!(w.len(), 4);
    // consumed bytes still take up storage
    assert_eq!(w.room(), 2);
    w.consume(0);
    assert_eq!(w.window(), b"cdef");
}

#[test]
fn consume_clamps_to_the_window() {
    let mut w = ByteWindow::with_capacity(8);
    w.append(b"abc");
    w.consume(100);
    assert_eq!(w.window(), b"");
    assert_eq!(w.len(), 0);
    w.consume(usize::MAX);
    assert_eq!(w.len(), 0);
    assert_eq!(w.room(), 5);
}

#[test]
fn ensure_room_leaves_a_window_with_room_alone() {
    let mut w = ByteWindow::with_capacity(8);
    w.append(b"abcdef");
    w.consume(2);
    assert_eq!(w.ensure_room_for_fill(), 2);
    assert_eq!(w.window(), b"cdef");
    assert_eq!(w.room(), 2);
}

#[test]
fn ensure_room_compacts_a_full_window() {
    let mut w = ByteWindow::with_capacity(4);
    w.append(b"abcd");
    w.consume(3);
    assert_eq!(w.room(), 0);
    assert_eq!(w.ensure_room_for_fill(), 3);
    assert_eq!(w.window(), b"d");
    assert_eq!(w.capacity(), 4);
    w.append(b"efg");
    assert_eq!(w.window(), b"defg");
    assert_eq!(w.capacity(), 4);
}

#[test]
fn ensure_room_compacts_a_full_window_that_is_all_consumed() {
    let mut w = ByteWindow::with_capacity(4);
    w.append(b"abcd");
    w.consume(4);
    assert_eq!(w.ensure_room_for_fill(), 4);
    assert_eq!(w.window(), b"");
    assert_eq!(w.capacity(), 4);
}

#[test]
fn ensure_room_doubles_the_capacity_of_a_window_full_of_unconsumed_bytes() {
    let mut w = ByteWindow::with_capacity(4);
    w.append(b"abcd");
    assert_eq!(w.ensure_room_for_fill(), 4);
    assert_eq!(w.window(), b"abcd");
    assert_eq!(w.capacity(), 8);
    w.append(b"efgh");
    assert_eq!(w.ensure_room_for_fill(), 8);
    assert_eq!(w.capacity(), 16);
    assert_eq!(w.window(), b"abcdefgh");
}

#[test]
fn a_window_without_capacity_grows_to_one_byte() {
    let mut w = ByteWindow::with_capacity(0);
    assert_eq!(w.ensure_room_for_fill(), 1);
    assert_eq!(w.capacity(), 1);
    w.append(b"a");
    assert_eq!(w.window(), b"a");
    assert_eq!(w.ensure_room_for_fill(), 1);
    assert_eq!(w.capacity(), 2);
}

#[test]
fn a_window_without_capacity_takes_what_is_appended() {
    let mut w = ByteWindow::with_capacity(0);
    w.append(b"abc");
    assert_eq!(w.window(), b"abc");
    assert_eq!(w.capacity(), 4);
}

#[test]
fn clear_forgets_every_byte() {
    let mut w = ByteWindow::with_capacity(4);
    w.append(b"abcd");
    w.consume(1);
    w.clear();
    assert_eq!(w.window(), b"");
    assert_eq!(w.len(), 0);
    assert_eq!(w.room(), 4);
    assert_eq!(w.capacity(), 4);
}

#[test]
fn many_compactions_keep_the_bytes_in_order() {
    let input: Vec<u8> = (0u8..50).collect();
    let mut w = ByteWindow::with_capacity(3);
    let mut seen: Vec<u8> = Vec::new();
    for byte in &input {
        assert!(w.ensure_room_for_fill() > 0);
        w.append(&[*byte]);
        if w.len() == 2 {
            seen.extend_from_slice(w.window());
            w.consume(2);
        }
    }
    assert_eq!(seen, input);
    assert_eq!(w.capacity(), 3);
}

#[test]
fn the_capacity_does_not_show_in_the_window() {
    let input: Vec<u8> = (0u8..200).collect();
    let mut small = ByteWindow::with_capacity(0);
    let mut large = ByteWindow::with_capacity(1024);
    for (i, piece) in input.chunks(7).enumerate() {
        small.append(piece);
        large.append(piece);
        small.consume(i % 5);
        large.consume(i % 5);
        small.ensure_room_for_fill();
        large.ensure_room_for_fill();
        assert_eq!(small.window(), large.window());
    }
}
