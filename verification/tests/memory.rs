use flightpanel::bump::BumpAllocator;
use flightpanel::cli::memory_line;
use flightpanel::lines::Line;
use flightpanel::log::{log_args, log_line, PendingMessage, MESSAGE_CAPACITY};
use flightpanel::pool::{PoolAllocator, PoolAllocatorGuard};

fn text_of(message: &PendingMessage) -> Vec<u8> {
    (0..message.len()).map(|i| message.byte(i)).collect()
}

#[test]
fn bump_hands_out_from_the_front() {
    let mut allocator = BumpAllocator::<4096>::new();
    assert_eq!(allocator.capacity(), 4096);
    assert_eq!(allocator.free(), 4096);
    assert_eq!(allocator.allocate::<[u8; 256]>(0x2000_0000), 0);
    assert_eq!(allocator.allocate::<[u8; 64]>(0x2000_0000), 256);
    assert_eq!(allocator.free(), 4096 - 320);
    assert_eq!(memory_line(&allocator), Line::Memory { allocated: 320, capacity: 4096 });
}

#[test]
fn bump_aligns_to_the_address() {
    let mut allocator = BumpAllocator::<64>::new();
    assert_eq!(allocator.allocate::<u8>(0x1000), 0);
    assert_eq!(allocator.allocate::<u32>(0x1000), 4);
    assert_eq!(allocator.free(), 64 - 5);
    let mut odd = BumpAllocator::<64>::new();
    assert_eq!(odd.allocate::<u32>(0x1001), 3);
    assert_eq!(odd.allocate::<u8>(0x1001), 4);
}

#[test]
fn bump_does_not_count_what_it_skips() {
    // The skipped bytes are handed out again, into the room of the word before.
    let mut allocator = BumpAllocator::<64>::new();
    allocator.allocate::<u8>(0x1000);
    assert_eq!(allocator.allocate::<u32>(0x1000), 4);
    assert_eq!(allocator.allocate::<u8>(0x1000), 5);
    // Without skipping, reservations keep apart.
    let mut aligned = BumpAllocator::<64>::new();
    assert_eq!(aligned.allocate::<u32>(0x1000), 0);
    assert_eq!(aligned.allocate::<u32>(0x1000), 4);
    assert_eq!(aligned.allocate::<u8>(0x1000), 8);
}

#[test]
fn bump_takes_nothing_for_nothing() {
    let mut allocator = BumpAllocator::<8>::new();
    allocator.allocate::<()>(0);
    assert_eq!(allocator.free(), 8);
    allocator.allocate::<u64>(0);
    assert_eq!(allocator.free(), 0);
}

#[test]
fn pool_hands_out_each_slot_once() {
    let mut pool = PoolAllocator::<u32, 3>::new([10, 20, 30]);
    let first = pool.allocate().unwrap();
    let second = pool.allocate().unwrap();
    let third = pool.allocate().unwrap();
    assert!(pool.allocate().is_none());
    assert_eq!(*first.deref(&pool), 10);
    assert_eq!(*second.deref(&pool), 20);
    assert_eq!(*third.deref(&pool), 30);
}

#[test]
fn pool_takes_slots_back() {
    let mut pool = PoolAllocator::<u32, 2>::new([1, 2]);
    let first = pool.allocate().unwrap();
    let second = pool.allocate().unwrap();
    *first.deref_mut(&mut pool) = 7;
    *second.deref_mut(&mut pool) = 8;
    first.drop(&mut pool);
    let again = pool.allocate().unwrap();
    assert_eq!(*again.deref(&pool), 7);
    assert_eq!(*second.deref(&pool), 8);
    assert!(pool.allocate().is_none());
}

#[test]
fn empty_pool_has_nothing() {
    let mut pool = PoolAllocator::<u8, 0>::new([]);
    assert!(pool.allocate().is_none());
}

#[test]
fn messages_translate_characters() {
    let mut message = PendingMessage::new();
    assert!(message.write_str("a\nb").is_ok());
    assert_eq!(text_of(&message), b"a\r\nb".to_vec());
    let _ = message.write_str("\u{e9}\u{7f}\u{1f600}");
    assert_eq!(text_of(&message), b"a\r\nb?\x7f?".to_vec());
    message.reset();
    assert_eq!(message.len(), 0);
    message.push_char(200);
    assert_eq!(text_of(&message), vec![200]);
}

#[test]
fn messages_are_cut_off() {
    let mut message = PendingMessage::new();
    let long = "x".repeat(MESSAGE_CAPACITY - 1);
    assert!(message.write_str(&long).is_ok());
    assert!(message.write_str("\n").is_ok());
    assert_eq!(message.len(), MESSAGE_CAPACITY);
    assert_eq!(message.byte(MESSAGE_CAPACITY - 1), b'\r');
    message.push_char(b'y');
    assert!(message.write_str("more").is_ok());
    assert_eq!(message.len(), MESSAGE_CAPACITY);
    assert_eq!(message.byte(MESSAGE_CAPACITY - 1), b'\r');
}

#[test]
fn pieces_join() {
    let mut whole = PendingMessage::new();
    let _ = whole.write_str("one\ntwo");
    let mut pieces = PendingMessage::new();
    for piece in ["one", "", "\ntw", "o"] {
        let _ = pieces.write_str(piece);
    }
    assert_eq!(text_of(&whole), text_of(&pieces));
}

#[test]
fn logging_fills_a_message() {
    let mut pool = PoolAllocator::<PendingMessage, 3>::new([PendingMessage::new(); 3]);
    let first = log_args(&mut pool, "hello").unwrap();
    assert_eq!(text_of(first.deref(&pool)), b"hello\r\r\n".to_vec());
    let second = log_args(&mut pool, "").unwrap();
    assert_eq!(text_of(second.deref(&pool)), b"\r\r\n".to_vec());
    first.drop(&mut pool);
    let third = log_args(&mut pool, "x").unwrap();
    assert_eq!(text_of(third.deref(&pool)), b"x\r\r\n".to_vec());
}

#[test]
fn logging_drops_text_when_all_messages_are_in_use() {
    let mut pool = PoolAllocator::<PendingMessage, 3>::new([PendingMessage::new(); 3]);
    let guards: Vec<PoolAllocatorGuard<3>> =
        (0..3).map(|_| log_args(&mut pool, "busy").unwrap()).collect();
    assert!(log_args(&mut pool, "lost").is_none());
    for guard in guards {
        assert_eq!(text_of(guard.deref(&pool)), b"busy\r\r\n".to_vec());
        guard.drop(&mut pool);
    }
    assert!(log_args(&mut pool, "back").is_some());
}

#[test]
fn logging_a_line_is_logging_its_text() {
    let mut pool = PoolAllocator::<PendingMessage, 2>::new([PendingMessage::new(); 2]);
    let line = Line::Memory { allocated: 320, capacity: 4096 };
    let first = log_line(&mut pool, &line).unwrap();
    let second = log_args(&mut pool, "320/4096 bytes are allocated").unwrap();
    assert_eq!(text_of(first.deref(&pool)), b"320/4096 bytes are allocated\r\r\n".to_vec());
    assert_eq!(text_of(first.deref(&pool)), text_of(second.deref(&pool)));
    assert!(log_line(&mut pool, &line).is_none());
}

#[test]
fn bump_counts_the_sizes_of_a_run() {
    let mut allocator = BumpAllocator::<4096>::new();
    assert_eq!(allocator.allocate::<[u8; 256]>(0x2000_0000), 0);
    assert_eq!(allocator.allocate::<[u8; 256]>(0x2000_0000), 256);
    assert_eq!(allocator.allocate::<[u8; 64]>(0x2000_0000), 512);
    assert_eq!(allocator.free(), 3520);
    assert_eq!(allocator.capacity() - allocator.free(), 576);
    assert_eq!(allocator.capacity(), 4096);
}

#[test]
fn bump_keeps_off_earlier_values_without_padding() {
    // The word is not moved up, so the byte and the next word keep off it, though the byte between
    // makes the second word move up.
    let mut allocator = BumpAllocator::<64>::new();
    assert_eq!(allocator.allocate::<u32>(0x1000), 0);
    assert_eq!(allocator.allocate::<u8>(0x1000), 4);
    assert_eq!(allocator.allocate::<u32>(0x1000), 8);
    assert_eq!(allocator.free(), 64 - 9);
}

#[test]
fn pool_never_hands_out_a_held_slot() {
    let mut pool = PoolAllocator::<usize, 4>::new([0, 1, 2, 3]);
    let mut held: Vec<PoolAllocatorGuard<4>> = Vec::new();
    // Odd steps drop a guard, even ones ask for slots until there is none.
    for step in 0..20 {
        if step % 2 == 1 {
            held.remove(step * 7 % held.len()).drop(&mut pool);
            held.remove(step * 5 % held.len()).drop(&mut pool);
        } else {
            while let Some(guard) = pool.allocate() {
                held.push(guard);
            }
            assert_eq!(held.len(), 4);
        }
        let mut slots: Vec<usize> = held.iter().map(|guard| *guard.deref(&pool)).collect();
        slots.sort();
        slots.dedup();
        assert_eq!(slots.len(), held.len());
    }
}
