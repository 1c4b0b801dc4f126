use turret_link::checksum::Crc32;
use turret_link::tasks::dma2_stream7::on_dma2_stream7;
use turret_link::tasks::periodic_update::periodic_emit_status;
use turret_link::tasks::usart1_rx::{handle_rx, process_mabie_packet};
use turret_link::tasks::usart1_tx::{on_usart1_txe, CompletionOutcome};
use turret_link::tasks::write_telemetry::{
    write_telemetry, TickOutcome, TxBufferState, PERIODIC_DELAY_SECONDS,
};
use turret_link::{BUF_SIZE, MESSAGE_SIZE};

const REQUEST_DEFAULT: [u8; 14] =
    [0xA1, 0x64, 0x6B, 0x69, 0x6E, 0x64, 0x67, 0x44, 0x65, 0x66, 0x61, 0x75, 0x6C, 0x74];

const REQUEST_DEFAULT_FRAME: [u8; 19] = [
    0x13, 0xA1, 0x64, 0x6B, 0x69, 0x6E, 0x64, 0x67, 0x44, 0x65, 0x66, 0x61, 0x75, 0x6C, 0x74, 0xB6,
    0x0F, 0x22, 0x3C,
];

fn buffer_of(send: &Option<TxBufferState>) -> [u8; BUF_SIZE] {
    *send.as_ref().unwrap().buffer()
}

fn is_running(send: &Option<TxBufferState>) -> bool {
    !send.as_ref().unwrap().is_idle()
}

#[test]
fn the_link_sizes() {
    assert_eq!(BUF_SIZE, 32);
    assert_eq!(MESSAGE_SIZE, 31);
    assert_eq!(turret_link::CRC_SIZE, 4);
    assert_eq!(PERIODIC_DELAY_SECONDS, 1);
}

#[test]
fn the_state_at_boot_is_idle_with_a_zeroed_buffer() {
    let send = Some(TxBufferState::new());
    assert!(!is_running(&send));
    assert_eq!(buffer_of(&send), [0u8; BUF_SIZE]);
}

#[test]
fn a_tick_while_idle_starts_one_transfer() {
    let mut send = Some(TxBufferState::new());
    let mut crc = Crc32::new();
    let outcome = write_telemetry(&mut send, Some(&REQUEST_DEFAULT), &mut crc);
    assert_eq!(outcome, TickOutcome::Started(19));
    assert!(is_running(&send));
    let buffer = buffer_of(&send);
    assert_eq!(buffer[..19], REQUEST_DEFAULT_FRAME);
    assert_eq!(buffer[19..], [0u8; 13]);
}

#[test]
fn a_tick_while_running_is_dropped() {
    let mut send = Some(TxBufferState::new());
    let mut crc = Crc32::new();
    write_telemetry(&mut send, Some(&REQUEST_DEFAULT), &mut crc);
    let in_flight = buffer_of(&send);
    let outcome = write_telemetry(&mut send, Some(&[0xDE, 0xAD, 0xBE, 0xEF]), &mut crc);
    assert_eq!(outcome, TickOutcome::Overrun);
    assert!(is_running(&send));
    assert_eq!(buffer_of(&send), in_flight);
}

#[test]
fn two_ticks_within_one_transfer_send_one_frame() {
    let mut send = Some(TxBufferState::new());
    let mut crc = Crc32::new();
    let first = write_telemetry(&mut send, Some(&REQUEST_DEFAULT), &mut crc);
    let second = write_telemetry(&mut send, Some(&REQUEST_DEFAULT), &mut crc);
    assert_eq!(first, TickOutcome::Started(19));
    assert_eq!(second, TickOutcome::Overrun);
    assert_eq!(on_usart1_txe(&mut send), CompletionOutcome::Finished);
    assert_eq!(on_usart1_txe(&mut send), CompletionOutcome::Spurious);
}

#[test]
fn a_completion_while_running_makes_the_state_idle() {
    let mut send = Some(TxBufferState::new());
    let mut crc = Crc32::new();
    write_telemetry(&mut send, Some(&REQUEST_DEFAULT), &mut crc);
    let sent = buffer_of(&send);
    assert_eq!(on_usart1_txe(&mut send), CompletionOutcome::Finished);
    assert!(!is_running(&send));
    assert_eq!(buffer_of(&send), sent);
}

#[test]
fn a_completion_while_idle_is_spurious() {
    let mut send = Some(TxBufferState::new());
    assert_eq!(on_usart1_txe(&mut send), CompletionOutcome::Spurious);
    assert!(!is_running(&send));
    assert_eq!(buffer_of(&send), [0u8; BUF_SIZE]);
}

#[test]
fn the_stream_interrupt_is_the_completion_interrupt() {
    let mut send = Some(TxBufferState::new());
    let mut crc = Crc32::new();
    assert_eq!(on_dma2_stream7(&mut send), CompletionOutcome::Spurious);
    write_telemetry(&mut send, Some(&REQUEST_DEFAULT), &mut crc);
    assert_eq!(on_dma2_stream7(&mut send), CompletionOutcome::Finished);
    assert!(!is_running(&send));
}

#[test]
fn a_transfer_can_start_again_after_completion() {
    let mut send = Some(TxBufferState::new());
    let mut crc = Crc32::new();
    write_telemetry(&mut send, Some(&REQUEST_DEFAULT), &mut crc);
    on_usart1_txe(&mut send);
    let outcome = write_telemetry(&mut send, Some(&[0xDE, 0xAD, 0xBE, 0xEF]), &mut crc);
    assert_eq!(outcome, TickOutcome::Started(9));
    let buffer = buffer_of(&send);
    assert_eq!(buffer[..9], [0x09, 0xDE, 0xAD, 0xBE, 0xEF, 0x81, 0xDA, 0x1A, 0x18]);
    // nothing of the longer frame is left behind the shorter one
    assert_eq!(buffer[9..], [0u8; 23]);
}

#[test]
fn a_zero_ends_the_frame_and_only_zeros_follow() {
    for size in 0..=26usize {
        let payload: Vec<u8> = (0..size).map(|i| (i * 37 % 5) as u8).collect();
        let mut send = Some(TxBufferState::new());
        let mut crc = Crc32::new();
        // an earlier frame that fills the buffer
        let longest: Vec<u8> = (1..=27).collect();
        assert_eq!(write_telemetry(&mut send, Some(&longest), &mut crc), TickOutcome::Started(32));
        assert!(buffer_of(&send).iter().all(|byte| *byte != 0));
        on_usart1_txe(&mut send);
        let outcome = write_telemetry(&mut send, Some(&payload), &mut crc);
        assert_eq!(outcome, TickOutcome::Started(size + 5));
        let buffer = buffer_of(&send);
        assert!(buffer[..size + 5].iter().all(|byte| *byte != 0));
        assert!(buffer[size + 5..].iter().all(|byte| *byte == 0));
        assert_eq!(buffer.iter().position(|byte| *byte == 0), Some(size + 5));
    }
}

#[test]
fn the_frame_of_the_longest_packet_leaves_no_room_for_a_zero() {
    let mut send = Some(TxBufferState::new());
    let mut crc = Crc32::new();
    let payload: Vec<u8> = (0..27).map(|i| (i % 3) as u8).collect();
    assert_eq!(write_telemetry(&mut send, Some(&payload), &mut crc), TickOutcome::Started(32));
    assert!(buffer_of(&send).iter().all(|byte| *byte != 0));
}

#[test]
fn what_the_buffer_holds_can_be_received_as_it_is() {
    for size in 0..=25usize {
        let payload: Vec<u8> = (0..size).map(|i| (i * 13 % 7) as u8).collect();
        let mut send = Some(TxBufferState::new());
        let mut crc = Crc32::new();
        let outcome = write_telemetry(&mut send, Some(&payload), &mut crc);
        assert_eq!(outcome, TickOutcome::Started(size + 5));
        // the frame and the zero that ends it arrive; the stream had room for the rest
        let snapshot = buffer_of(&send);
        let remaining = BUF_SIZE - (size + 6);
        let received = handle_rx(remaining, true, &snapshot, &mut crc).unwrap();
        assert_eq!(received.as_slice(), &payload[..]);
        // the whole buffer, as it goes on the wire, decodes to the same payload
        let whole = process_mabie_packet(&snapshot, &mut crc).unwrap();
        assert_eq!(whole.as_slice(), &payload[..]);
    }
}

#[test]
fn a_frame_holds_no_zero() {
    let mut send = Some(TxBufferState::new());
    let mut crc = Crc32::new();
    let payload = [0x00, 0x11, 0x00, 0x22, 0x33, 0x00, 0x00, 0x44];
    let outcome = write_telemetry(&mut send, Some(&payload), &mut crc);
    assert_eq!(outcome, TickOutcome::Started(13));
    let buffer = buffer_of(&send);
    assert_eq!(
        buffer[..13],
        [0x01, 0x02, 0x11, 0x03, 0x22, 0x33, 0x01, 0x06, 0x44, 0x0B, 0x56, 0x35, 0xA6]
    );
}

#[test]
fn a_zero_in_the_checksum_is_stuffed_too() {
    let mut send = Some(TxBufferState::new());
    let mut crc = Crc32::new();
    let outcome = write_telemetry(&mut send, Some(&[0x00, 0x03, 0x55, 0xAA]), &mut crc);
    assert_eq!(outcome, TickOutcome::Started(9));
    assert_eq!(buffer_of(&send)[..9], [0x01, 0x07, 0x03, 0x55, 0xAA, 0xDD, 0xE2, 0xBF, 0x01]);
}

#[test]
fn an_empty_packet_is_framed_as_its_checksum() {
    let mut send = Some(TxBufferState::new());
    let mut crc = Crc32::new();
    let outcome = write_telemetry(&mut send, Some(&[]), &mut crc);
    assert_eq!(outcome, TickOutcome::Started(5));
    assert_eq!(buffer_of(&send)[..5], [0x01, 0x01, 0x01, 0x01, 0x01]);
}

#[test]
fn the_longest_packet_fills_the_buffer() {
    let mut send = Some(TxBufferState::new());
    let mut crc = Crc32::new();
    let payload: Vec<u8> = (1..=27).collect();
    let outcome = write_telemetry(&mut send, Some(&payload), &mut crc);
    assert_eq!(outcome, TickOutcome::Started(32));
    let buffer = buffer_of(&send);
    assert_eq!(buffer[0], 0x20);
    assert_eq!(buffer[1..28], payload[..]);
    assert_eq!(buffer[28..], [0x8B, 0xF6, 0x35, 0x22]);
}

#[test]
fn a_packet_that_leaves_no_room_for_the_checksum_is_abandoned() {
    let mut send = Some(TxBufferState::new());
    let mut crc = Crc32::new();
    let payload: Vec<u8> = (1..=28).collect();
    let outcome = write_telemetry(&mut send, Some(&payload), &mut crc);
    assert_eq!(outcome, TickOutcome::SerializeOverflow);
    assert!(!is_running(&send));
    assert_eq!(buffer_of(&send), [0u8; BUF_SIZE]);
}

#[test]
fn a_packet_that_was_not_encoded_is_abandoned() {
    let mut send = Some(TxBufferState::new());
    let mut crc = Crc32::new();
    assert_eq!(write_telemetry(&mut send, None, &mut crc), TickOutcome::SerializeOverflow);
    assert!(!is_running(&send));
    write_telemetry(&mut send, Some(&REQUEST_DEFAULT), &mut crc);
    assert_eq!(write_telemetry(&mut send, None, &mut crc), TickOutcome::SerializeOverflow);
    assert!(is_running(&send));
}

#[test]
fn the_telemetry_packet_with_named_fields_is_too_long() {
    // {"turret_pos": 5, "turret_rot": "Forward"} in CBOR
    let mut packet = vec![0xA2, 0x6A];
    packet.extend_from_slice(b"turret_pos");
    packet.extend_from_slice(&[0x05, 0x6A]);
    packet.extend_from_slice(b"turret_rot");
    packet.push(0x67);
    packet.extend_from_slice(b"Forward");
    assert_eq!(packet.len(), 32);
    let mut send = Some(TxBufferState::new());
    let mut crc = Crc32::new();
    assert_eq!(write_telemetry(&mut send, Some(&packet), &mut crc), TickOutcome::SerializeOverflow);
}

#[test]
fn what_is_sent_can_be_received() {
    for size in 0..=27usize {
        let payload: Vec<u8> = (0..size).map(|i| (i * 37 % 5) as u8).collect();
        let mut send = Some(TxBufferState::new());
        let mut crc = Crc32::new();
        let outcome = write_telemetry(&mut send, Some(&payload), &mut crc);
        assert_eq!(outcome, TickOutcome::Started(size + 5));
        let mut wire = buffer_of(&send)[..size + 5].to_vec();
        wire.push(0);
        let received = process_mabie_packet(&wire, &mut crc).unwrap();
        assert_eq!(received.as_slice(), &payload[..]);
        assert_eq!(received.len(), size);
    }
}

#[test]
fn the_first_protocol_version_frames_alike() {
    let mut send = Some(TxBufferState::new());
    let mut crc = Crc32::new();
    let payload = [0x00, 0x11, 0x00, 0x22, 0x33, 0x00, 0x00, 0x44];
    let outcome = periodic_emit_status(&mut send, Some(&payload), &mut crc);
    assert_eq!(outcome, TickOutcome::Started(13));
    assert!(is_running(&send));
    let buffer = buffer_of(&send);
    assert_eq!(
        buffer[..13],
        [0x01, 0x02, 0x11, 0x03, 0x22, 0x33, 0x01, 0x06, 0x44, 0x0B, 0x56, 0x35, 0xA6]
    );
    assert_eq!(buffer[13..], [0u8; 19]);
    assert_eq!(periodic_emit_status(&mut send, Some(&payload), &mut crc), TickOutcome::Overrun);
    assert_eq!(buffer_of(&send), buffer);
}

#[test]
fn the_first_protocol_version_clears_the_buffer_behind_the_frame() {
    let mut send = Some(TxBufferState::new());
    let mut crc = Crc32::new();
    let longest: Vec<u8> = (1..=27).collect();
    assert_eq!(periodic_emit_status(&mut send, Some(&longest), &mut crc), TickOutcome::Started(32));
    assert!(buffer_of(&send).iter().all(|byte| *byte != 0));
    on_usart1_txe(&mut send);
    let outcome = periodic_emit_status(&mut send, Some(&[0xDE, 0xAD, 0xBE, 0xEF]), &mut crc);
    assert_eq!(outcome, TickOutcome::Started(9));
    let buffer = buffer_of(&send);
    assert_eq!(buffer[..9], [0x09, 0xDE, 0xAD, 0xBE, 0xEF, 0x81, 0xDA, 0x1A, 0x18]);
    assert_eq!(buffer[9..], [0u8; 23]);
}

#[test]
fn the_first_protocol_version_has_the_same_limits() {
    let mut send = Some(TxBufferState::new());
    let mut crc = Crc32::new();
    let too_long: Vec<u8> = (1..=28).collect();
    assert_eq!(
        periodic_emit_status(&mut send, Some(&too_long), &mut crc),
        TickOutcome::SerializeOverflow
    );
    assert_eq!(periodic_emit_status(&mut send, None, &mut crc), TickOutcome::SerializeOverflow);
    let longest: Vec<u8> = (1..=27).collect();
    assert_eq!(periodic_emit_status(&mut send, Some(&longest), &mut crc), TickOutcome::Started(32));
}
