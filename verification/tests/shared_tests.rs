use ultrawave::machines::shared::{BufferRegistry, SharedBuffer, SLOT_MAX_LENGTH};

#[test]
fn test_buffer_creation() {
    let registry = BufferRegistry::new();
    for i in 0..4 {
        assert_eq!(registry.buffer_len(i), 0);
    }
}

#[test]
fn test_write_sample() {
    let mut registry = BufferRegistry::new();
    assert!(registry.write_sample(0, 1024));
    assert_eq!(registry.buffer_len(0), 1);
}

#[test]
fn test_read_buffer() {
    let mut registry = BufferRegistry::new();
    registry.write_sample(0, 100);
    registry.write_sample(0, 200);
    let buffer = registry.read_buffer(0).unwrap();
    assert_eq!(buffer.len(), 2);
    assert_eq!(buffer[0], 100);
    assert_eq!(buffer[1], 200);
}

#[test]
fn test_replace_buffer() {
    let mut registry = BufferRegistry::new();
    let samples = vec![1, 2, 3, 4, 5];
    assert!(registry.replace_buffer(0, samples.clone()));
    assert_eq!(registry.buffer_len(0), 5);
    let read = registry.read_buffer(0).unwrap();
    assert_eq!(read, samples);
}

#[test]
fn test_clear_buffer() {
    let mut registry = BufferRegistry::new();
    registry.write_sample(1, 500);
    assert!(registry.clear_buffer(1));
    assert_eq!(registry.buffer_len(1), 0);
}

#[test]
fn test_clear_all() {
    let mut registry = BufferRegistry::new();
    for i in 0..4 {
        registry.write_sample(i, 100 * i as i16);
    }
    registry.clear_all();
    for i in 0..4 {
        assert_eq!(registry.buffer_len(i), 0);
    }
}

#[test]
fn test_invalid_channel() {
    let mut registry = BufferRegistry::new();
    assert!(!registry.write_sample(4, 100));
    assert_eq!(registry.buffer_len(5), 0);
    assert!(registry.read_buffer(10).is_none());
}

#[test]
fn test_reset_write_position() {
    let mut registry = BufferRegistry::new();
    registry.write_sample(2, 10);
    registry.write_sample(2, 20);
    assert!(registry.reset_write_position(2));
    // Buffer still has data, but write position is reset
    assert_eq!(registry.buffer_len(2), 2);
}

#[test]
fn writes_outside_the_table_change_nothing() {
    let mut registry = BufferRegistry::new();
    registry.write_sample(0, 1);
    registry.write_sample(1, 2);
    registry.write_sample(2, 3);
    registry.write_sample(3, 4);
    for channel in [4usize, 5, 100, usize::MAX] {
        assert!(!registry.write_sample(channel, 999));
        assert!(!registry.replace_buffer(channel, vec![9, 9]));
        assert!(!registry.clear_buffer(channel));
        assert!(!registry.reset_write_position(channel));
        assert!(registry.read_buffer(channel).is_none());
        assert_eq!(registry.buffer_len(channel), 0);
    }
    assert_eq!(registry.read_buffer(0).unwrap(), vec![1]);
    assert_eq!(registry.read_buffer(1).unwrap(), vec![2]);
    assert_eq!(registry.read_buffer(2).unwrap(), vec![3]);
    assert_eq!(registry.read_buffer(3).unwrap(), vec![4]);
}

#[test]
fn interleaved_writers_keep_their_own_banks() {
    let mut one = BufferRegistry::new();
    let mut other = BufferRegistry::new();
    let mut i: i16 = 0;
    while i < 50 {
        assert!(one.write_sample(0, i));
        assert!(one.write_sample(1, -i));
        assert!(other.write_sample(1, -i));
        assert!(other.write_sample(0, i));
        i += 1;
    }
    let expected_zero: Vec<i16> = (0..50).collect();
    let expected_one: Vec<i16> = (0..50).map(|v: i16| -v).collect();
    assert_eq!(one.read_buffer(0).unwrap(), expected_zero);
    assert_eq!(one.read_buffer(1).unwrap(), expected_one);
    assert_eq!(other.read_buffer(0).unwrap(), expected_zero);
    assert_eq!(other.read_buffer(1).unwrap(), expected_one);
    assert_eq!(one.buffer_len(2), 0);
    assert_eq!(one.buffer_len(3), 0);
}

#[test]
fn rewound_bank_is_overwritten_in_place() {
    let mut registry = BufferRegistry::new();
    registry.write_sample(2, 10);
    registry.write_sample(2, 20);
    registry.write_sample(2, 30);
    assert!(registry.reset_write_position(2));
    assert!(registry.write_sample(2, 11));
    assert_eq!(registry.read_buffer(2).unwrap(), vec![11, 20, 30]);
    assert!(registry.write_sample(2, 21));
    assert!(registry.write_sample(2, 31));
    assert!(registry.write_sample(2, 41));
    assert_eq!(registry.read_buffer(2).unwrap(), vec![11, 21, 31, 41]);
}

#[test]
fn full_bank_refuses_writes() {
    let mut registry = BufferRegistry::new();
    assert!(registry.replace_buffer(3, vec![0; SLOT_MAX_LENGTH]));
    assert!(!registry.write_sample(3, 5));
    assert_eq!(registry.buffer_len(3), SLOT_MAX_LENGTH);
    assert!(registry.reset_write_position(3));
    assert!(registry.write_sample(3, 5));
    assert_eq!(registry.read_buffer(3).unwrap()[0], 5);
    assert_eq!(registry.buffer_len(3), SLOT_MAX_LENGTH);
}

#[test]
fn read_is_a_snapshot() {
    let mut registry = BufferRegistry::new();
    registry.write_sample(0, 7);
    let mut copy = registry.read_buffer(0).unwrap();
    copy.push(8);
    copy[0] = 9;
    assert_eq!(registry.read_buffer(0).unwrap(), vec![7]);
}

#[test]
fn bank_operations() {
    let mut bank = SharedBuffer::new();
    assert!(bank.is_empty());
    assert_eq!(bank.len(), 0);
    assert_eq!(bank.max_length, SLOT_MAX_LENGTH);
    assert!(bank.write(3));
    assert!(bank.write(4));
    assert!(!bank.is_empty());
    assert_eq!(bank.snapshot(), vec![3, 4]);
    assert_eq!(bank.write_position, 2);
    bank.reset_write_position();
    assert_eq!(bank.write_position, 0);
    bank.replace(vec![1, 2, 3]);
    assert_eq!(bank.write_position, 3);
    assert_eq!(bank.len(), 3);
    bank.clear();
    assert_eq!(bank.len(), 0);
    assert_eq!(bank.write_position, 0);
    let copy = bank.clone();
    assert_eq!(copy.max_length, SLOT_MAX_LENGTH);
}
