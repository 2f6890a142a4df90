use bedrock::{Arena, Buffer};

fn is_empty(buffer: &mut Buffer, capacity: usize) -> bool {
    let mut tail = 0;
    let _ = buffer.try_write_with(|buf| {
        tail = buf.len();
        Err::<usize, ()>(())
    });
    let mut unread = 0;
    let _ = buffer.try_read_with(|buf| {
        unread = buf.len();
        Err::<usize, ()>(())
    });
    tail == capacity && unread == 0
}

#[test]
fn bytes_pass_through_two_buffers_unchanged() {
    let mut block = vec![0u8; 8192];
    let mut arena = Arena::new(&mut block);
    let mut incoming = Buffer::new(arena.bytes(4096));
    let mut outgoing = Buffer::new(arena.bytes(4096));
    assert_eq!(arena.capacity(), 0);

    let mut source: &[u8] = b"abc";
    let mut sink: Vec<u8> = Vec::new();
    loop {
        let filled = incoming.write_with(|tail| {
            let n = source.len().min(tail.len());
            tail[..n].copy_from_slice(&source[..n]);
            source = &source[n..];
            n
        });
        if filled == 0 {
            break;
        }
        incoming.read_with(|unread| outgoing.write(unread));
        outgoing.read_with(|unread| {
            sink.extend_from_slice(unread);
            unread.len()
        });
    }
    assert_eq!(sink, b"abc".to_vec());
    assert!(is_empty(&mut incoming, 4096));
    assert!(is_empty(&mut outgoing, 4096));
}

#[test]
fn a_long_stream_passes_through_small_buffers_unchanged() {
    let mut block = vec![0u8; 24];
    let mut arena = Arena::new(&mut block);
    let mut incoming = Buffer::new(arena.bytes(16));
    let mut outgoing = Buffer::new(arena.bytes(8));

    let input: Vec<u8> = (0..1000u32).map(|i| (i % 251) as u8).collect();
    let mut source: &[u8] = &input;
    let mut sink: Vec<u8> = Vec::new();
    let mut step = 0usize;
    loop {
        let filled = incoming.write_with(|tail| {
            let n = source.len().min(tail.len()).min(1 + step % 7);
            tail[..n].copy_from_slice(&source[..n]);
            source = &source[n..];
            n
        });
        incoming.read_with(|unread| outgoing.write(unread));
        outgoing.read_with(|unread| {
            let n = unread.len().min(1 + step % 3);
            sink.extend_from_slice(&unread[..n]);
            n
        });
        step += 1;
        if filled == 0 && source.is_empty() && sink.len() == input.len() {
            break;
        }
        assert!(step < 100_000);
    }
    assert_eq!(sink, input);
    assert!(is_empty(&mut incoming, 16));
    assert!(is_empty(&mut outgoing, 8));
}
