use led_gpio::device::{
    apply_command, DeviceBuffer, DeviceError, RustMiscdevData, GLOBALMEM_SIZE,
};
use led_gpio::gpio::RpiGpio;

#[test]
fn initial_buffer_is_all_zero() {
    let d = RustMiscdevData::new();
    let data = d.read(0, GLOBALMEM_SIZE).unwrap();
    assert_eq!(data.len(), GLOBALMEM_SIZE);
    assert!(data.iter().all(|b| *b == 0));
    assert_eq!(d.read_value(17), 0);
}

#[test]
fn write_then_read_round_trips() {
    let mut d = RustMiscdevData::new();
    let payload = vec![b'1', 10, 20, 30];
    assert_eq!(d.write(100, &payload), Ok(4));
    assert_eq!(d.read(100, 4).unwrap(), payload);
}

#[test]
fn invalid_command_still_commits_the_bytes() {
    let mut d = RustMiscdevData::new();
    let payload = vec![b'x', b'y', b'z'];
    assert_eq!(d.write(7, &payload), Err(DeviceError::InvalidCommand));
    assert_eq!(d.read(7, 3).unwrap(), payload);
    assert_eq!(d.read_value(17), 0);
}

#[test]
fn overflowing_write_is_a_capacity_error() {
    let mut d = RustMiscdevData::new();
    assert_eq!(d.write(0, &[b'1']), Ok(1));
    let payload = vec![b'1', b'1'];
    assert_eq!(d.write(GLOBALMEM_SIZE - 1, &payload), Err(DeviceError::CapacityFault));
    // Nothing was stored and the pin was not driven again.
    let tail = d.read(GLOBALMEM_SIZE - 1, 1).unwrap();
    assert_eq!(tail, vec![0]);
    assert_eq!(d.write(GLOBALMEM_SIZE + 1, &payload), Err(DeviceError::CapacityFault));
}

#[test]
fn write_at_far_offset_without_bytes_is_a_capacity_error() {
    // An empty payload at the buffer's very end leaves no byte to interpret.
    let mut d = RustMiscdevData::new();
    assert_eq!(d.write(GLOBALMEM_SIZE, &[]), Err(DeviceError::CapacityFault));
    assert_eq!(d.write(GLOBALMEM_SIZE + 5, &[]), Err(DeviceError::CapacityFault));
}

#[test]
fn empty_write_interprets_the_stored_byte() {
    let mut d = RustMiscdevData::new();
    assert_eq!(d.write(0, &[b'1']), Ok(1));
    // No byte is copied, but the byte already at the offset is a command.
    assert_eq!(d.write(0, &[]), Ok(0));
    assert_eq!(d.read_value(17), 1);
    // At offset 1 the stored byte is 0, which is no command.
    assert_eq!(d.write(1, &[]), Err(DeviceError::InvalidCommand));
}

#[test]
fn last_byte_of_the_buffer_is_writable() {
    let mut d = RustMiscdevData::new();
    assert_eq!(d.write(GLOBALMEM_SIZE - 1, &[b'1']), Ok(1));
    assert_eq!(d.read(GLOBALMEM_SIZE - 1, 1).unwrap(), vec![b'1']);
    assert_eq!(d.read_value(17), 1);
}

#[test]
fn command_bytes_drive_pin_17() {
    let mut d = RustMiscdevData::new();
    d.gpio_init();
    assert_eq!(d.write(50, &[b'1']), Ok(1));
    assert_eq!(d.read_value(17), 1);
    assert_eq!(d.write(51, &[b'0']), Ok(1));
    assert_eq!(d.read_value(17), 0);
    assert_eq!(d.write(52, &[b'x']), Err(DeviceError::InvalidCommand));
    assert_eq!(d.read_value(17), 0);
}

#[test]
fn end_to_end_led_toggle() {
    let mut d = RustMiscdevData::new();
    d.gpio_init();
    assert!(d.read(0, 16).unwrap().iter().all(|b| *b == 0));
    assert_eq!(d.write(0, &[b'1']), Ok(1));
    assert_eq!(d.read(0, 1).unwrap(), vec![b'1']);
    assert_eq!(d.read_value(17), 1);
    assert_eq!(d.write(0, &[b'0']), Ok(1));
    assert_eq!(d.read_value(17), 0);
}

#[test]
fn interleaved_writes_at_distinct_offsets_all_survive() {
    // The buffer guard linearizes concurrent writers; this is one such
    // linearization of nine single-byte writers at distinct offsets.
    let mut d = RustMiscdevData::new();
    let offsets = [3usize, 500, 40, 4095, 0, 1024, 77, 2048, 9];
    for (n, off) in offsets.iter().enumerate() {
        let byte = if n % 2 == 0 { b'0' } else { b'1' };
        assert_eq!(d.write(*off, &[byte]), Ok(1));
    }
    for (n, off) in offsets.iter().enumerate() {
        let byte = if n % 2 == 0 { b'0' } else { b'1' };
        assert_eq!(d.read(*off, 1).unwrap(), vec![byte]);
    }
}

#[test]
fn read_clamps_to_the_remaining_bytes() {
    let mut d = RustMiscdevData::new();
    assert_eq!(d.write(GLOBALMEM_SIZE - 6, &[b'0', 1, 2, 3, 4, 5]), Ok(6));
    let data = d.read(GLOBALMEM_SIZE - 6, 100).unwrap();
    assert_eq!(data, vec![b'0', 1, 2, 3, 4, 5]);
    assert_eq!(d.read(GLOBALMEM_SIZE, 5).unwrap(), Vec::<u8>::new());
    assert_eq!(d.read(GLOBALMEM_SIZE + 1, 0), Err(DeviceError::CapacityFault));
    assert_eq!(d.read(0, 0).unwrap(), Vec::<u8>::new());
}

#[test]
fn device_buffer_write_at_hands_back_the_command_byte() {
    let mut b = DeviceBuffer::new();
    assert_eq!(b.write_at(3, &[65, 66]), Ok(65));
    assert_eq!(b.read(3, 2).unwrap(), vec![65, 66]);
    assert_eq!(b.write_at(4, &[]), Ok(66));
    assert_eq!(b.write_at(GLOBALMEM_SIZE, &[]), Err(DeviceError::CapacityFault));
    assert_eq!(b.write_at(GLOBALMEM_SIZE - 1, &[1, 2]), Err(DeviceError::CapacityFault));
}

#[test]
fn apply_command_drives_only_the_led_pin() {
    let mut g = RpiGpio::new();
    g.set_value(16, 1);
    assert_eq!(apply_command(&mut g, b'1'), Ok(()));
    assert_eq!(g.read_value(17), 1);
    assert_eq!(apply_command(&mut g, b'0'), Ok(()));
    assert_eq!(g.read_value(17), 0);
    assert_eq!(apply_command(&mut g, b'2'), Err(DeviceError::InvalidCommand));
    assert_eq!(g.read_value(17), 0);
    assert_eq!(g.read_value(16), 1);
}
