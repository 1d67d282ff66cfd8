use ef_drivers::framing::{format_command, format_data, Role};
use ef_drivers::transport::{BusFault, CommandDataShifter, RecordingTransport, Transport};

fn framed(role: Role, bytes: &[u8], capacity: usize) -> Vec<u8> {
    let mut buffer = vec![0u8; capacity];
    let len = match role {
        Role::Command => format_command(bytes, &mut buffer),
        Role::Data => format_data(bytes, &mut buffer),
    };
    buffer.truncate(len);
    buffer
}

#[test]
fn chunk_capacity_is_eight_ninths() {
    let shifter = CommandDataShifter::new(RecordingTransport::new(), 8);
    assert_eq!(shifter.chunk_capacity(), 7);
    let shifter = CommandDataShifter::new(RecordingTransport::new(), 16);
    assert_eq!(shifter.chunk_capacity(), 14);
    let shifter = CommandDataShifter::new(RecordingTransport::new(), 72);
    assert_eq!(shifter.chunk_capacity(), 64);
}

#[test]
fn chunk_fills_buffer_without_overflow() {
    // capacity 16 allows chunks of 14 raw bytes, which frame to exactly 16.
    let input: Vec<u8> = (0..14u8).collect();
    let out = framed(Role::Data, &input, 16);
    assert_eq!(out.len(), 16);
}

#[test]
fn single_chunk_transfer() {
    let mut shifter = CommandDataShifter::new(RecordingTransport::new(), 8);
    let input = [0x12, 0x34, 0x56];
    assert_eq!(shifter.send_commands(&input), Ok(()));
    let transport = shifter.release();
    assert_eq!(transport.writes.len(), 1);
    assert_eq!(transport.writes[0].role, Role::Command);
    assert_eq!(transport.writes[0].bytes, vec![0x09, 0x4D, 0x2A, 0xD0, 0x08, 0x04, 0x02, 0x01]);
}

#[test]
fn empty_transfer_writes_nothing() {
    let mut shifter = CommandDataShifter::new(RecordingTransport::new(), 8);
    assert_eq!(shifter.send_data(&[]), Ok(()));
    assert_eq!(shifter.release().writes.len(), 0);
}

#[test]
fn multi_chunk_dispatch_in_order() {
    // capacity 8 allows 7 raw bytes per chunk: 10 bytes need two writes.
    let mut shifter = CommandDataShifter::new(RecordingTransport::new(), 8);
    let input: Vec<u8> = (1..=10u8).collect();
    assert_eq!(shifter.send_data(&input), Ok(()));
    let transport = shifter.release();
    assert_eq!(transport.writes.len(), 2);
    assert_eq!(transport.writes[0].role, Role::Data);
    assert_eq!(transport.writes[1].role, Role::Data);
    assert_eq!(transport.writes[0].bytes, framed(Role::Data, &input[..7], 8));
    assert_eq!(transport.writes[1].bytes, framed(Role::Data, &input[7..], 8));
}

#[test]
fn continuation_chunks_of_commands_are_data() {
    let mut shifter = CommandDataShifter::new(RecordingTransport::new(), 8);
    let input: Vec<u8> = (1..=9u8).collect();
    assert_eq!(shifter.send_commands(&input), Ok(()));
    let transport = shifter.release();
    assert_eq!(transport.writes.len(), 2);
    assert_eq!(transport.writes[0].role, Role::Command);
    assert_eq!(transport.writes[0].bytes, framed(Role::Command, &input[..7], 8));
    assert_eq!(transport.writes[1].role, Role::Data);
    assert_eq!(transport.writes[1].bytes, framed(Role::Data, &input[7..], 8));
}

#[test]
fn first_error_aborts_remaining_chunks() {
    // 20 bytes at 7 per chunk make 3 chunks; the second write fails.
    let mut shifter = CommandDataShifter::new(RecordingTransport::failing_at(1), 8);
    let input: Vec<u8> = (0..20u8).collect();
    assert_eq!(shifter.send_data(&input), Err(BusFault));
    let transport = shifter.release();
    assert_eq!(transport.writes.len(), 1);
    assert_eq!(transport.writes[0].bytes, framed(Role::Data, &input[..7], 8));
}

#[test]
fn error_on_first_chunk_sends_nothing() {
    let mut shifter = CommandDataShifter::new(RecordingTransport::failing_at(0), 8);
    let input: Vec<u8> = (0..20u8).collect();
    assert_eq!(shifter.send_commands(&input), Err(BusFault));
    assert_eq!(shifter.release().writes.len(), 0);
}

#[test]
fn recording_transport_records_both_roles() {
    let mut transport = RecordingTransport::new();
    assert_eq!(transport.write_commands(&[1, 2]), Ok(()));
    assert_eq!(transport.write_data(&[3]), Ok(()));
    assert_eq!(transport.writes.len(), 2);
    assert_eq!(transport.writes[0].role, Role::Command);
    assert_eq!(transport.writes[0].bytes, vec![1, 2]);
    assert_eq!(transport.writes[1].role, Role::Data);
    assert_eq!(transport.writes[1].bytes, vec![3]);
}
