use brain_interface::engine::Data;
use brain_interface::packet::{packetize, reassemble, BoxPacket};
use brain_interface::session::{Backpressure, SenderSession, SessionError, SessionStep, TxDecision, TxOutcome};

fn ramp(n: usize) -> Data {
    Data { channels: 8, sequence_number: 0, frames: (0..n).map(|i| (i * 257) as u16).collect() }
}

#[test]
fn four_hundred_samples_at_mtu_242_take_four_packets() {
    let d = ramp(400);
    let p = packetize(&d, 242, 17);
    assert_eq!(p.len(), 4);
    let lens: Vec<usize> = p.iter().map(|x| x.len()).collect();
    assert_eq!(lens, vec![242, 242, 242, 82]);
    for (i, pk) in p.iter().enumerate() {
        assert_eq!(pk[0], 17 + i as u8);
        assert_eq!(pk[1], 8);
    }
    // First sample of the second packet is sample 120, little-endian.
    let v = (120 * 257) as u16;
    assert_eq!(p[1][2], (v & 0xFF) as u8);
    assert_eq!(p[1][3], (v >> 8) as u8);
}

#[test]
fn packet_sequence_byte_wraps() {
    let p = packetize(&ramp(10), 6, 254);
    assert_eq!(p.len(), 5);
    let seqs: Vec<u8> = p.iter().map(|x| x[0]).collect();
    assert_eq!(seqs, vec![254, 255, 0, 1, 2]);
}

#[test]
fn empty_frame_gives_no_packets() {
    assert!(packetize(&ramp(0), 242, 0).is_empty());
}

#[test]
fn round_trip_for_several_mtus() {
    for n in [0usize, 1, 7, 120, 121, 400] {
        let d = ramp(n);
        for mtu in [4usize, 5, 6, 9, 242, 2048] {
            let p = packetize(&d, mtu, 3);
            assert!(p.iter().all(|x| x.len() <= mtu));
            assert_eq!(reassemble(&p), d.frames, "n {} mtu {}", n, mtu);
        }
    }
}

#[test]
fn reassemble_skips_headers_and_short_packets() {
    let p = vec![vec![0u8, 8, 0x34, 0x12, 0x01], vec![1u8], vec![2u8, 8, 0xFF, 0x00]];
    assert_eq!(reassemble(&p), vec![0x1234, 0x00FF]);
}

#[test]
fn box_packet_append_and_reset() {
    let mut p: BoxPacket<8> = BoxPacket::new().unwrap();
    assert_eq!(BoxPacket::<8>::mtu(), 8);
    p.append(&[1, 2, 3]);
    p.append(&[4]);
    assert_eq!(p.as_slice(), &[1, 2, 3, 4]);
    assert_eq!(p.len(), 4);
    p.reset();
    assert_eq!(p.len(), 0);
    p.append(&[9; 8]);
    assert_eq!(p.as_slice(), &[9; 8]);
}

#[test]
fn stop_message_halts_sender_after_at_most_one_frame() {
    let mut s = SenderSession::new(242, Backpressure::DropWhenFull);
    assert_eq!(s.next_step(), SessionStep::ReadFrame);
    let first = s.frame_packets(&ramp(400));
    assert_eq!(first.len(), 4);
    assert_eq!(first[3][0], 3);
    // The command watcher sees an inbound message while a frame is awaited.
    s.receive_command();
    assert!(s.should_stop());
    let after = s.frame_packets(&ramp(400));
    assert!(after.is_empty());
    assert_eq!(s.next_step(), SessionStep::Finish);
}

#[test]
fn sequence_byte_runs_on_across_frames() {
    let mut s = SenderSession::new(242, Backpressure::WaitForCredit);
    let a = s.frame_packets(&ramp(400));
    let b = s.frame_packets(&ramp(10));
    assert_eq!(a.last().unwrap()[0], 3);
    assert_eq!(b[0][0], 4);
}

#[test]
fn drop_policy_counts_full_queue() {
    let mut s = SenderSession::new(242, Backpressure::DropWhenFull);
    assert_eq!(s.on_tx_result(TxOutcome::Sent), Ok(TxDecision::Continue));
    assert_eq!(s.on_tx_result(TxOutcome::QueueFull), Ok(TxDecision::Continue));
    assert_eq!(s.sent(), 1);
    assert_eq!(s.dropped(), 1);
    assert_eq!(s.on_tx_result(TxOutcome::Disconnected), Err(SessionError::Disconnected));
}

#[test]
fn credit_policy_resends() {
    let mut s = SenderSession::new(242, Backpressure::WaitForCredit);
    assert_eq!(s.on_tx_result(TxOutcome::QueueFull), Ok(TxDecision::Resend));
    assert_eq!(s.dropped(), 0);
    assert_eq!(s.on_tx_result(TxOutcome::Sent), Ok(TxDecision::Continue));
    assert_eq!(s.sent(), 1);
}

#[test]
fn packets_are_full_but_the_last() {
    let d = ramp(401);
    let p = packetize(&d, 11, 0);
    assert_eq!(p.len(), 101);
    assert!(p[..100].iter().all(|x| x.len() == 10));
    assert_eq!(p[100].len(), 4);
}
