//! Tests for the TNT buffer manager.

use iptr::analyzer::tnt_buffer::{TntBuffer, TntBufferManager};

fn buffer_value(buf: &TntBuffer) -> u64 {
    u64::from_le_bytes(buf.get_array_qword())
}

fn manager_value(manager: &TntBufferManager) -> u64 {
    buffer_value(&manager.buffer())
}

#[test]
fn test_buffer_extend_zero_short_tnt() {
    let mut buffer_manager = TntBufferManager::default();

    // No TNT bits in this packet
    let full_buf = buffer_manager.extend_with_short_tnt(0b0000_0010);
    assert!(full_buf.is_none());
    let buf = buffer_manager.buffer();
    assert_eq!(buffer_value(&buf), 0b0);
    assert_eq!(buf.bits(), 0);
}

#[test]
fn test_buffer_extend_short_tnt_from_zero() {
    let mut buffer_manager = TntBufferManager::default();

    let full_buf = buffer_manager.extend_with_short_tnt(0b0110_1010);
    assert!(full_buf.is_none());
    let buf = buffer_manager.buffer();
    assert_eq!(
        buffer_value(&buf),
        u64::from_le_bytes([0, 0, 0, 0, 0, 0, 0, 0b10101_000])
    );
    assert_eq!(buf.bits(), 5);
}

#[test]
fn test_buffer_extend_short_tnt_until_full() {
    let mut buffer_manager = TntBufferManager::default();

    for loop_count in 0..12 {
        // Each time will add 5 bits, after 13 times, will reach full
        let full_buf = buffer_manager.extend_with_short_tnt(0b0110_1010);
        assert!(full_buf.is_none());
        assert_eq!(buffer_manager.buffer().bits(), 5 * (loop_count + 1));
    }
    let full_buf = buffer_manager.extend_with_short_tnt(0b0110_1010);
    assert!(full_buf.is_some());
    if let Some(full_buf) = full_buf {
        assert_eq!(
            buffer_value(&full_buf),
            0b10101_10101_10101_10101_10101_10101_10101_10101_10101_10101_10101_10101_1010
        );
        assert_eq!(full_buf.bits(), 64);
    }
    let buf = buffer_manager.buffer();
    assert_eq!(
        buffer_value(&buf),
        u64::from_le_bytes([0, 0, 0, 0, 0, 0, 0, 0b1000_0000])
    );
    assert_eq!(buf.bits(), 1);
}

#[test]
fn test_buffer_extend_zero_long_tnt() {
    let mut buffer_manager = TntBufferManager::default();

    // No TNT bits in this packet
    let full_buf =
        buffer_manager.extend_with_long_tnt(u64::from_le_bytes([0x1, 0, 0, 0, 0, 0, 0, 0]));
    assert!(full_buf.is_none());
    let buf = buffer_manager.buffer();
    assert_eq!(buffer_value(&buf), 0b0);
    assert_eq!(buf.bits(), 0);
}

#[test]
fn test_buffer_extend_long_tnt_from_zero() {
    let mut buffer_manager = TntBufferManager::default();

    let full_buf = buffer_manager.extend_with_long_tnt(u64::from_le_bytes([
        0b1111_1101,
        0,
        0,
        0,
        0,
        0,
        0,
        0,
    ]));
    assert!(full_buf.is_none());
    let buf = buffer_manager.buffer();
    assert_eq!(
        buffer_value(&buf),
        u64::from_le_bytes([0, 0, 0, 0, 0, 0, 0, 0b1111_1010])
    );
    assert_eq!(buf.bits(), 7);
}

#[test]
fn test_buffer_extend_long_tnt_until_full() {
    let mut buffer_manager = TntBufferManager::default();

    // This will add 47 TNT bits
    let full_buf = buffer_manager.extend_with_long_tnt(u64::from_le_bytes([
        0b1111_1101,
        0b1111_1101,
        0b1111_1101,
        0b1111_1101,
        0b1111_1101,
        0b1111_1101,
        0,
        0,
    ]));
    assert!(full_buf.is_none());
    assert_eq!(buffer_manager.buffer().bits(), 47);
    // This will add another 47 TNT bits, remain 30 bits
    let full_buf = buffer_manager.extend_with_long_tnt(u64::from_le_bytes([
        0b1111_1101,
        0b1111_1101,
        0b1111_1101,
        0b1111_1101,
        0b1111_1101,
        0b1111_1101,
        0,
        0,
    ]));
    assert!(full_buf.is_some());
    if let Some(full_buf) = full_buf {
        assert_eq!(
            buffer_value(&full_buf),
            0b111_1101_1111_1101_1111_1101_1111_1101_1111_1101_1111_1101_111_1101_1111_1101_11
        );
        assert_eq!(full_buf.bits(), 64);
    }
    let buf = buffer_manager.buffer();
    assert_eq!(
        buffer_value(&buf),
        0b11_1101_1111_1101_1111_1101_1111_1101_00_0000_0000_0000_0000_0000_0000_0000_0000
    );
    assert_eq!(buf.bits(), 30);
}

#[test]
fn test_total_bit_count_is_additive() {
    // The occupancy after a mix of short and long TNT packets is the sum of
    // each packet's TNT bit count
    let mut buffer_manager = TntBufferManager::new();
    assert!(buffer_manager.extend_with_short_tnt(0b0110_1010).is_none()); // 5 bits
    assert!(buffer_manager.extend_with_long_tnt(0xFD).is_none()); // 7 bits
    assert!(buffer_manager.extend_with_short_tnt(0b0000_0110).is_none()); // 1 bit
    assert_eq!(buffer_manager.buffer().bits(), 5 + 7 + 1);
}

#[test]
fn test_remove_then_prepend_round_trip() {
    // Taking out a buffer, consuming its first bits and re-injecting the
    // remainder restores the original bit order
    let mut buffer_manager = TntBufferManager::new();
    assert!(buffer_manager.extend_with_short_tnt(0b0110_1010).is_none()); // bits 1,0,1,0,1
    let buf = buffer_manager.take();
    assert_eq!(buffer_manager.buffer().bits(), 0);

    let tail = buf.remove_first_n_bits(2); // drops the leading 1,0
    assert_eq!(tail.bits(), 3);
    assert_eq!(
        buffer_value(&tail),
        u64::from_le_bytes([0, 0, 0, 0, 0, 0, 0, 0b101_00000])
    );

    let ok: Result<(), iptr::analyzer::error::AnalyzerError<(), ()>> =
        buffer_manager.prepend_buf(tail);
    assert!(ok.is_ok());
    let restored = buffer_manager.buffer();
    assert_eq!(restored.bits(), 3);
    assert_eq!(
        buffer_value(&restored),
        u64::from_le_bytes([0, 0, 0, 0, 0, 0, 0, 0b101_00000])
    );
}

#[test]
fn test_prepend_overflowing_is_rejected() {
    let mut buffer_manager = TntBufferManager::new();
    // Fill to 60 bits: 12 x 5 bits
    for _ in 0..12 {
        assert!(buffer_manager.extend_with_short_tnt(0b0110_1010).is_none());
    }
    assert_eq!(buffer_manager.buffer().bits(), 60);
    let mut other = TntBufferManager::new();
    assert!(other.extend_with_long_tnt(0xFD).is_none()); // 7 bits
    let seven = other.take();
    let res: Result<(), iptr::analyzer::error::AnalyzerError<(), ()>> =
        buffer_manager.prepend_buf(seven);
    assert_eq!(
        res,
        Err(iptr::analyzer::error::AnalyzerError::ExceededTntBuffer)
    );
    // The buffer is left unchanged
    assert_eq!(buffer_manager.buffer().bits(), 60);
}
