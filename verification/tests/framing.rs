use ef_drivers::framing::{encode_checked, format_command, format_data, CapacityError, Role};

/// Bit `k` of the physical byte stream, most significant bit first.
fn bit_of(out: &[u8], k: usize) -> bool {
    (out[k / 8] >> (7 - (k % 8))) & 1 == 1
}

/// Parse the physical stream back into complete 9-bit units of
/// (role-is-data, payload).
fn decode_units(out: &[u8]) -> Vec<(bool, u8)> {
    let total_bits: usize = out.len() * 8;
    let mut units = Vec::new();
    let mut k: usize = 0;
    while k + 9 <= total_bits {
        let role_is_data = bit_of(out, k);
        let mut p = 0u8;
        for u in 0..8 {
            p = (p << 1) | (bit_of(out, k + 1 + u) as u8);
        }
        units.push((role_is_data, p));
        k += 9;
    }
    units
}

fn framed(role: Role, bytes: &[u8], capacity: usize) -> Vec<u8> {
    let mut buffer = vec![0u8; capacity];
    let len = match role {
        Role::Command => format_command(bytes, &mut buffer),
        Role::Data => format_data(bytes, &mut buffer),
    };
    buffer.truncate(len);
    buffer
}

#[test]
fn command_example() {
    let mut buffer = vec![0u8; 10];
    let input = [0x12, 0x34, 0x56];
    let len = format_command(&input, &mut buffer);
    assert_eq!(&buffer[..len], &[0x09, 0x4D, 0x2A, 0xD0, 0x08, 0x04, 0x02, 0x01]);
}

#[test]
fn data_example() {
    let mut buffer = vec![0u8; 10];
    let input = [0x12, 0x34, 0x56];
    let len = format_data(&input, &mut buffer);
    assert_eq!(&buffer[..len], &[0x89, 0x4D, 0x2A, 0xD0, 0x08, 0x04, 0x02, 0x01]);
}

#[test]
fn empty_input_frames_to_nothing() {
    let mut buffer = vec![0xFFu8; 16];
    assert_eq!(format_command(&[], &mut buffer), 0);
    assert_eq!(format_data(&[], &mut buffer), 0);
    // the buffer is still zero-filled
    assert!(buffer.iter().all(|b| *b == 0));
}

#[test]
fn output_is_whole_groups() {
    for n in 1usize..=20 {
        let bytes: Vec<u8> = (0..n as u8).map(|b| b.wrapping_mul(37)).collect();
        let out = framed(Role::Data, &bytes, 40);
        let expected = 8 * ((9 * n).div_ceil(64));
        assert_eq!(out.len(), expected);
        assert!(out.len() > 0);
        assert_eq!(out.len() % 8, 0);
    }
}

#[test]
fn leading_role_bit() {
    let cmd = framed(Role::Command, &[0xFF], 8);
    assert_eq!(cmd[0] & 0x80, 0);
    let dat = framed(Role::Data, &[0x00], 8);
    assert_eq!(dat[0] & 0x80, 0x80);
}

#[test]
fn round_trip_single_group() {
    let input = [0x12, 0x34, 0x56];
    let out = framed(Role::Command, &input, 8);
    let units = decode_units(&out);
    assert_eq!(units.len(), 7);
    assert_eq!(units[0], (false, 0x12));
    assert_eq!(units[1], (true, 0x34));
    assert_eq!(units[2], (true, 0x56));
    for unit in &units[3..] {
        assert_eq!(*unit, (true, 0x00));
    }
}

#[test]
fn round_trip_multi_group() {
    let input: Vec<u8> = (0..14u8).map(|b| b.wrapping_mul(19).wrapping_add(3)).collect();
    let out = framed(Role::Data, &input, 16);
    assert_eq!(out.len(), 16);
    let units = decode_units(&out);
    assert_eq!(units.len(), 14);
    for (i, unit) in units.iter().enumerate() {
        assert_eq!(unit.0, true);
        assert_eq!(unit.1, input[i]);
    }
}

#[test]
fn round_trip_full_group_boundary() {
    // 7 payload bytes fill one group exactly; 8 spill into a second.
    for n in [7usize, 8] {
        let input: Vec<u8> = (0..n as u8).map(|b| 0xFF - b).collect();
        let out = framed(Role::Command, &input, 16);
        let units = decode_units(&out);
        for (i, unit) in units.iter().enumerate() {
            if i < n {
                assert_eq!(unit.0, i > 0);
                assert_eq!(unit.1, input[i]);
            } else {
                assert_eq!(*unit, (true, 0x00));
            }
        }
    }
}

#[test]
fn buffer_is_zero_filled_before_encode() {
    let mut buffer = vec![0xFFu8; 24];
    let len = format_command(&[0x12], &mut buffer);
    assert_eq!(len, 8);
    assert!(buffer[len..].iter().all(|b| *b == 0));
}

#[test]
fn checked_encode_reports_capacity() {
    let input = [1u8, 2, 3, 4, 5, 6, 7, 8];
    let mut small = vec![0u8; 8];
    assert_eq!(encode_checked(Role::Data, &input, &mut small), Err(CapacityError));
    let mut fitting = vec![0u8; 16];
    assert_eq!(encode_checked(Role::Data, &input, &mut fitting), Ok(16));
    let mut empty_out = vec![0u8; 0];
    assert_eq!(encode_checked(Role::Data, &[], &mut empty_out), Ok(0));
}
