use bedrock::Buffer;

/// The number of unread bytes, found without moving a cursor.
fn unread(buffer: &mut Buffer) -> usize {
    let mut len = 0;
    let outcome = buffer.try_read_with(|buf| {
        len = buf.len();
        Err::<usize, ()>(())
    });
    assert_eq!(outcome, Err(()));
    len
}

/// The length of the free tail, found without moving a cursor.
fn free_tail(buffer: &mut Buffer) -> usize {
    let mut len = 0;
    let outcome = buffer.try_write_with(|buf| {
        len = buf.len();
        Err::<usize, ()>(())
    });
    assert_eq!(outcome, Err(()));
    len
}

/// The two cursors of a buffer of the given capacity.
fn cursors(buffer: &mut Buffer, capacity: usize) -> (usize, usize) {
    let end = capacity - free_tail(buffer);
    let start = end - unread(buffer);
    (start, end)
}

/// The unread bytes, found without moving a cursor.
fn peek(buffer: &mut Buffer) -> Vec<u8> {
    let mut seen = Vec::new();
    let _ = buffer.try_read_with(|buf| {
        seen.extend_from_slice(buf);
        Err::<usize, ()>(())
    });
    seen
}

#[test]
fn new_buffer_is_empty() {
    let mut mem = [9u8; 8];
    let mut buffer = Buffer::new(&mut mem);
    assert_eq!(cursors(&mut buffer, 8), (0, 0));
    assert_eq!(unread(&mut buffer), 0);
    assert_eq!(free_tail(&mut buffer), 8);
}

#[test]
fn write_then_read_returns_the_bytes_and_empties_the_buffer() {
    let mut mem = [0u8; 8];
    let mut buffer = Buffer::new(&mut mem);
    assert_eq!(buffer.write(&[10, 20, 30, 40, 50]), 5);
    assert_eq!(cursors(&mut buffer, 8), (0, 5));
    let mut out = [0u8; 5];
    assert_eq!(buffer.read(&mut out), 5);
    assert_eq!(out, [10, 20, 30, 40, 50]);
    assert_eq!(cursors(&mut buffer, 8), (0, 0));
}

#[test]
fn round_trip_of_no_bytes() {
    let mut mem = [0u8; 4];
    let mut buffer = Buffer::new(&mut mem);
    assert_eq!(buffer.write(&[]), 0);
    let mut out: [u8; 0] = [];
    assert_eq!(buffer.read(&mut out), 0);
    assert_eq!(cursors(&mut buffer, 4), (0, 0));
}

#[test]
fn round_trip_of_a_full_buffer() {
    let mut mem = [0u8; 4];
    let mut buffer = Buffer::new(&mut mem);
    assert_eq!(buffer.write(&[1, 2, 3, 4]), 4);
    assert_eq!(cursors(&mut buffer, 4), (0, 4));
    assert_eq!(buffer.write(&[5]), 0);
    let mut out = [0u8; 4];
    assert_eq!(buffer.read(&mut out), 4);
    assert_eq!(out, [1, 2, 3, 4]);
    assert_eq!(cursors(&mut buffer, 4), (0, 0));
}

#[test]
fn a_write_that_uses_the_tail_up_moves_the_unread_bytes_to_the_front() {
    let mut mem = [0u8; 8];
    let mut buffer = Buffer::new(&mut mem);
    assert_eq!(buffer.write(&[b'a', b'b', b'c', b'd', b'e']), 5);
    let mut out = [0u8; 3];
    assert_eq!(buffer.read(&mut out), 3);
    assert_eq!(out, [b'a', b'b', b'c']);
    assert_eq!(cursors(&mut buffer, 8), (3, 5));
    assert_eq!(peek(&mut buffer), vec![b'd', b'e']);
    assert_eq!(buffer.write(&[b'f', b'g', b'h']), 3);
    assert_eq!(cursors(&mut buffer, 8), (0, 5));
    assert_eq!(peek(&mut buffer), vec![b'd', b'e', b'f', b'g', b'h']);
}

#[test]
fn compaction_keeps_the_two_unread_bytes() {
    let mut mem = [0u8; 8];
    let mut buffer = Buffer::new(&mut mem);
    assert_eq!(buffer.write(&[1, 2, 3, 4, 5]), 5);
    let mut out = [0u8; 3];
    assert_eq!(buffer.read(&mut out), 3);
    assert_eq!(cursors(&mut buffer, 8), (3, 5));
    let written = buffer.write_with(|tail| {
        assert_eq!(tail.len(), 3);
        tail.copy_from_slice(&[6, 7, 8]);
        3
    });
    assert_eq!(written, 3);
    assert_eq!(unread(&mut buffer), 5);
    let mut first = [0u8; 2];
    assert_eq!(buffer.read(&mut first), 2);
    assert_eq!(first, [4, 5]);
    assert_eq!(cursors(&mut buffer, 8), (2, 5));
}

#[test]
fn compaction_leaves_start_zero_and_end_at_the_unread_count() {
    let mut mem = [0u8; 8];
    let mut buffer = Buffer::new(&mut mem);
    assert_eq!(buffer.write(&[1, 2, 3, 4, 5, 6, 7, 8]), 8);
    let mut out = [0u8; 6];
    assert_eq!(buffer.read(&mut out), 6);
    assert_eq!(free_tail(&mut buffer), 0);
    assert_eq!(unread(&mut buffer), 2);
    assert_eq!(buffer.write(&[9]), 0);
    assert_eq!(cursors(&mut buffer, 8), (0, 2));
    assert_eq!(peek(&mut buffer), vec![7, 8]);
    assert_eq!(free_tail(&mut buffer), 6);
}

#[test]
fn reading_all_unread_bytes_resets_both_cursors() {
    let mut mem = [0u8; 8];
    let mut buffer = Buffer::new(&mut mem);
    assert_eq!(buffer.write(&[1, 2, 3, 4, 5, 6]), 6);
    let mut two = [0u8; 2];
    assert_eq!(buffer.read(&mut two), 2);
    assert_eq!(cursors(&mut buffer, 8), (2, 6));
    let taken = buffer.read_with(|buf| buf.len());
    assert_eq!(taken, 4);
    assert_eq!(cursors(&mut buffer, 8), (0, 0));
    assert_eq!(free_tail(&mut buffer), 8);
}

#[test]
fn read_with_moves_the_read_cursor_by_the_count() {
    let mut mem = [0u8; 8];
    let mut buffer = Buffer::new(&mut mem);
    assert_eq!(buffer.write(&[1, 2, 3, 4]), 4);
    let taken = buffer.read_with(|buf| {
        assert_eq!(buf.to_vec(), vec![1u8, 2, 3, 4]);
        1
    });
    assert_eq!(taken, 1);
    assert_eq!(cursors(&mut buffer, 8), (1, 4));
    let taken = buffer.read_with(|buf| {
        assert_eq!(buf.to_vec(), vec![2u8, 3, 4]);
        0
    });
    assert_eq!(taken, 0);
    assert_eq!(cursors(&mut buffer, 8), (1, 4));
}

#[test]
fn try_read_with_commits_on_success_only() {
    let mut mem = [0u8; 8];
    let mut buffer = Buffer::new(&mut mem);
    assert_eq!(buffer.write(&[1, 2, 3]), 3);
    let failed: Result<usize, &str> = buffer.try_read_with(|_| Err("sink closed"));
    assert_eq!(failed, Err("sink closed"));
    assert_eq!(cursors(&mut buffer, 8), (0, 3));
    let taken: Result<usize, &str> = buffer.try_read_with(|buf| Ok(buf.len() - 1));
    assert_eq!(taken, Ok(2));
    assert_eq!(cursors(&mut buffer, 8), (2, 3));
    assert_eq!(peek(&mut buffer), vec![3]);
}

#[test]
fn write_with_moves_the_write_cursor_by_the_count() {
    let mut mem = [0u8; 8];
    let mut buffer = Buffer::new(&mut mem);
    let written = buffer.write_with(|tail| {
        assert_eq!(tail.len(), 8);
        tail[0] = 11;
        tail[1] = 22;
        tail[2] = 33;
        2
    });
    assert_eq!(written, 2);
    assert_eq!(cursors(&mut buffer, 8), (0, 2));
    assert_eq!(peek(&mut buffer), vec![11, 22]);
    let written = buffer.write_with(|tail| {
        assert_eq!(tail.len(), 6);
        assert_eq!(tail[0], 33);
        0
    });
    assert_eq!(written, 0);
    assert_eq!(cursors(&mut buffer, 8), (0, 2));
}

#[test]
fn try_write_with_commits_on_success_only() {
    let mut mem = [0u8; 8];
    let mut buffer = Buffer::new(&mut mem);
    assert_eq!(buffer.write(&[1, 2]), 2);
    let failed: Result<usize, &str> = buffer.try_write_with(|tail| {
        tail[0] = 99;
        Err("source failed")
    });
    assert_eq!(failed, Err("source failed"));
    assert_eq!(cursors(&mut buffer, 8), (0, 2));
    assert_eq!(peek(&mut buffer), vec![1, 2]);
    let written: Result<usize, &str> = buffer.try_write_with(|tail| {
        tail[0] = 3;
        Ok(1)
    });
    assert_eq!(written, Ok(1));
    assert_eq!(cursors(&mut buffer, 8), (0, 3));
    assert_eq!(peek(&mut buffer), vec![1, 2, 3]);
}

#[test]
fn try_write_with_compacts_after_a_commit_that_uses_the_tail_up() {
    let mut mem = [0u8; 4];
    let mut buffer = Buffer::new(&mut mem);
    assert_eq!(buffer.write(&[1, 2, 3]), 3);
    let mut out = [0u8; 1];
    assert_eq!(buffer.read(&mut out), 1);
    assert_eq!(cursors(&mut buffer, 4), (1, 3));
    let written: Result<usize, ()> = buffer.try_write_with(|tail| {
        assert_eq!(tail.len(), 1);
        tail[0] = 4;
        Ok(1)
    });
    assert_eq!(written, Ok(1));
    assert_eq!(cursors(&mut buffer, 4), (0, 3));
    assert_eq!(peek(&mut buffer), vec![2, 3, 4]);
}

#[test]
fn a_tail_used_up_by_reads_compacts_on_the_next_write() {
    let mut mem = [0u8; 4];
    let mut buffer = Buffer::new(&mut mem);
    assert_eq!(buffer.write(&[1, 2, 3, 4]), 4);
    let mut out = [0u8; 2];
    assert_eq!(buffer.read(&mut out), 2);
    assert_eq!(out, [1, 2]);
    assert_eq!(unread(&mut buffer), 2);
    assert_eq!(free_tail(&mut buffer), 0);
    let written = buffer.write_with(|tail| {
        assert!(tail.is_empty());
        0
    });
    assert_eq!(written, 0);
    assert_eq!(cursors(&mut buffer, 4), (0, 2));
    assert_eq!(peek(&mut buffer), vec![3, 4]);
}

#[test]
fn read_returns_the_smaller_of_room_and_unread_bytes() {
    let mut mem = [0u8; 8];
    let mut buffer = Buffer::new(&mut mem);
    assert_eq!(buffer.write(&[1, 2, 3, 4, 5]), 5);
    let mut small = [0u8; 2];
    assert_eq!(buffer.read(&mut small), 2);
    assert_eq!(small, [1, 2]);
    let mut large = [0xEEu8; 6];
    assert_eq!(buffer.read(&mut large), 3);
    assert_eq!(large, [3, 4, 5, 0xEE, 0xEE, 0xEE]);
    let mut again = [0xEEu8; 3];
    assert_eq!(buffer.read(&mut again), 0);
    assert_eq!(again, [0xEE, 0xEE, 0xEE]);
}

#[test]
fn write_returns_the_smaller_of_source_and_free_tail() {
    let mut mem = [0u8; 4];
    let mut buffer = Buffer::new(&mut mem);
    assert_eq!(buffer.write(&[1, 2, 3]), 3);
    assert_eq!(buffer.write(&[4, 5, 6]), 1);
    assert_eq!(buffer.write(&[7]), 0);
    assert_eq!(peek(&mut buffer), vec![1, 2, 3, 4]);
}

#[test]
fn write_offers_the_tail_only_while_room_in_front_stays_unused() {
    let mut mem = [0u8; 8];
    let mut buffer = Buffer::new(&mut mem);
    assert_eq!(buffer.write(&[1, 2, 3, 4, 5, 6]), 6);
    let mut out = [0u8; 4];
    assert_eq!(buffer.read(&mut out), 4);
    assert_eq!(cursors(&mut buffer, 8), (4, 6));
    assert_eq!(buffer.write(&[7, 8, 9, 10, 11]), 2);
    assert_eq!(cursors(&mut buffer, 8), (0, 4));
    assert_eq!(buffer.write(&[9, 10, 11]), 3);
    assert_eq!(cursors(&mut buffer, 8), (0, 7));
    assert_eq!(peek(&mut buffer), vec![5, 6, 7, 8, 9, 10, 11]);
}

#[test]
fn buffer_without_capacity_takes_and_gives_nothing() {
    let mut mem: [u8; 0] = [];
    let mut buffer = Buffer::new(&mut mem);
    assert_eq!(buffer.write(&[1, 2, 3]), 0);
    let mut out = [0u8; 3];
    assert_eq!(buffer.read(&mut out), 0);
    assert_eq!(out, [0, 0, 0]);
    assert_eq!(cursors(&mut buffer, 0), (0, 0));
}

#[test]
fn writes_reach_the_region_the_buffer_was_made_over() {
    let mut mem = [0u8; 4];
    {
        let mut buffer = Buffer::new(&mut mem);
        assert_eq!(buffer.write(&[5, 6, 7]), 3);
    }
    assert_eq!(mem, [5, 6, 7, 0]);
}
