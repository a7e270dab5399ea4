use brain_interface::commands::{
    convert_channel, dummy_command, fill_readout_commands, fill_startup_commands, read_register,
    start_calibration, write_register, EngineConfig,
};
use brain_interface::engine::{swap_bytes, Boundary, Data, DmaAddresses, PointerAdjustment, SpiBuffers, State};
use brain_interface::queue::FrameQueue;

const ADDRS: DmaAddresses = DmaAddresses { tx: 0x2000_0000, rx1: 0x2000_1000, rx2: 0x2000_2000 };

fn frame(seq: usize) -> Data {
    Data { channels: 8, sequence_number: seq, frames: vec![seq as u16; 4] }
}

#[test]
fn opcodes_have_their_encodings() {
    assert_eq!(convert_channel(5), 0x0005);
    assert_eq!(read_register(40), 0x00E8);
    assert_eq!(write_register(1, 8), 0x0881);
    assert_eq!(write_register(0, 0b1101_1110), 0xDE80);
    assert_eq!(start_calibration(), 0x55);
    assert_eq!(dummy_command(), 0x00E8);
}

#[test]
fn readout_pattern_with_stride_ten_and_eight_channels() {
    let cfg = EngineConfig::brain_interface();
    let mut b = vec![0u16; 1000];
    fill_readout_commands(&cfg, &mut b, 0, 1000);
    for (i, v) in b.iter().enumerate() {
        if i % 10 < 8 {
            assert_eq!(*v, convert_channel((i % 10 + 4) as u8), "index {}", i);
        } else {
            assert_eq!(*v, dummy_command(), "index {}", i);
        }
    }
}

#[test]
fn readout_fill_keeps_the_rest() {
    let cfg = EngineConfig::brain_interface();
    let mut b = vec![7u16; 30];
    fill_readout_commands(&cfg, &mut b, 10, 20);
    assert_eq!(b[9], 7);
    assert_eq!(b[10], convert_channel(4));
    assert_eq!(b[18], dummy_command());
    assert_eq!(b[20], 7);
}

#[test]
fn startup_sequence_writes_registers_then_calibrates() {
    let cfg = EngineConfig::brain_interface();
    let mut b = vec![0u16; 500];
    fill_startup_commands(&cfg, &mut b, 0, 500);
    assert_eq!(b[0], dummy_command());
    assert_eq!(b[9], dummy_command());
    assert_eq!(b[10], write_register(0, 0b1101_1110));
    assert_eq!(b[11], write_register(1, 8));
    assert_eq!(b[12], write_register(2, 32));
    assert_eq!(b[17], write_register(7, 0));
    assert_eq!(b[18], write_register(8, 46));
    assert_eq!(b[21], write_register(11, 3));
    assert_eq!(b[22], write_register(12, 44));
    assert_eq!(b[23], write_register(13, 6));
    // Channels 4 to 11: mask 0x0FF0.
    assert_eq!(b[24], write_register(14, 0xF0));
    assert_eq!(b[25], write_register(15, 0x0F));
    assert_eq!(b[26], write_register(16, 0));
    assert_eq!(b[27], write_register(17, 0));
    assert_eq!(b[28], dummy_command());
    assert_eq!(b[200], start_calibration());
    assert_eq!(b[499], dummy_command());
}

#[test]
fn sixteen_channel_mask() {
    let cfg = EngineConfig::sixteen_channels();
    let mut b = vec![0u16; 300];
    fill_startup_commands(&cfg, &mut b, 0, 300);
    assert_eq!(b[18], write_register(8, 3));
    assert_eq!(b[24], write_register(14, 0xFF));
    assert_eq!(b[25], write_register(15, 0xFF));
    assert_eq!(b[26], write_register(16, 0));
}

#[test]
fn byte_swap_exact() {
    assert_eq!(swap_bytes(0x1234), 0x3412);
    assert_eq!(swap_bytes(0x00FF), 0xFF00);
}

#[test]
fn setup_fills_transmit_buffer() {
    let cfg = EngineConfig::brain_interface();
    let mut e = SpiBuffers::new(cfg);
    assert_eq!(e.state(), State::Off);
    assert_eq!(e.pointer_adjustments(), None);
    e.setup(ADDRS);
    assert_eq!(e.state(), State::Starting);
    assert_eq!(e.sequence_number(), 0);
    let tx = e.tx_buffer();
    assert_eq!(tx.len(), 1000);
    assert_eq!(tx[200], start_calibration());
    assert_eq!(tx[500], convert_channel(4));
    assert_eq!(tx[508], dummy_command());
}

#[test]
fn pointer_adjustments_per_state() {
    let cfg = EngineConfig::brain_interface();
    let mut e = SpiBuffers::new(cfg);
    let mut q = FrameQueue::new(16);
    e.setup(ADDRS);
    let back = 0u32.wrapping_sub(1000);
    assert_eq!(e.pointer_adjustments(), Some(PointerAdjustment { tx_delta: back, rx_delta: back }));
    e.update(ADDRS.rx1, &mut q);
    assert_eq!(
        e.pointer_adjustments(),
        Some(PointerAdjustment { tx_delta: back, rx_delta: 0x1000 - 1000 })
    );
    e.update(ADDRS.rx2, &mut q);
    assert_eq!(
        e.pointer_adjustments(),
        Some(PointerAdjustment { tx_delta: back, rx_delta: 0u32.wrapping_sub(0x1000 + 1000) })
    );
}

#[test]
fn each_buffer_yields_one_frame_of_four_hundred_samples() {
    let cfg = EngineConfig::brain_interface();
    let mut e = SpiBuffers::new(cfg);
    let mut q = FrameQueue::new(16);
    e.setup(ADDRS);
    assert_eq!(e.update(ADDRS.rx1, &mut q), Boundary::Calibrated);
    assert_eq!(e.state(), State::Rx1);
    assert!(q.is_empty());
    let b = e.update(ADDRS.rx2, &mut q);
    assert_eq!(b, Boundary::Frame { sequence_number: 0, queued: true, responding: false });
    assert_eq!(e.state(), State::Rx2);
    let d = q.try_pop().unwrap();
    assert_eq!(d.channels, 8);
    assert_eq!(d.sequence_number, 0);
    assert_eq!(d.frames.len(), 400);
    let b = e.update(ADDRS.rx1, &mut q);
    assert_eq!(b, Boundary::Frame { sequence_number: 1, queued: true, responding: false });
    assert_eq!(e.state(), State::Rx1);
    assert_eq!(q.try_pop().unwrap().frames.len(), 400);
}

#[test]
fn frame_takes_samples_two_words_late_and_swaps_bytes() {
    let cfg = EngineConfig::brain_interface();
    let mut e = SpiBuffers::new(cfg);
    let mut q = FrameQueue::new(16);
    e.setup(ADDRS);
    e.update(ADDRS.rx1, &mut q);
    // Sentinel reply, then row 0 channel 0, row 0 channel 7, row 49 channel 3.
    e.dma_write(true, 0, 0x4900);
    e.dma_write(true, 2, 0x3412);
    e.dma_write(true, 9, 0xCDAB);
    e.dma_write(true, 49 * 10 + 3 + 2, 0x0100);
    let b = e.update(ADDRS.rx2, &mut q);
    assert_eq!(b, Boundary::Frame { sequence_number: 0, queued: true, responding: true });
    let d = q.try_pop().unwrap();
    assert_eq!(d.frames[0], 0x1234);
    assert_eq!(d.frames[7], 0xABCD);
    assert_eq!(d.frames[49 * 8 + 3], 0x0001);
    assert_eq!(d.frames[1], 0);
}

#[test]
fn overflow_moves_to_head_of_next_buffer() {
    let cfg = EngineConfig::brain_interface();
    let mut e = SpiBuffers::new(cfg);
    let mut q = FrameQueue::new(16);
    e.setup(ADDRS);
    e.dma_write(true, 500, 11);
    e.dma_write(true, 501, 12);
    e.dma_write(true, 502, 13);
    // Two words arrived past the boundary during calibration.
    e.update(ADDRS.rx1 + 4, &mut q);
    assert_eq!(e.rx1_buffer()[0], 11);
    assert_eq!(e.rx1_buffer()[1], 12);
    assert_eq!(e.rx1_buffer()[2], 0);
    assert_eq!(e.tx_buffer()[0], convert_channel(4));
    assert_eq!(e.tx_buffer()[200], convert_channel(4));
    assert_eq!(e.tx_buffer()[208], dummy_command());
    e.dma_write(true, 500, 21);
    e.dma_write(true, 501, 22);
    e.dma_write(true, 502, 23);
    e.update(ADDRS.rx2 + 6, &mut q);
    assert_eq!(e.rx2_buffer()[0], 21);
    assert_eq!(e.rx2_buffer()[1], 22);
    assert_eq!(e.rx2_buffer()[2], 23);
    assert_eq!(e.rx2_buffer()[3], 0);
}

#[test]
fn update_while_off_changes_nothing() {
    let cfg = EngineConfig::brain_interface();
    let mut e = SpiBuffers::new(cfg);
    let mut q = FrameQueue::new(4);
    assert_eq!(e.update(ADDRS.rx1, &mut q), Boundary::Idle);
    assert_eq!(e.state(), State::Off);
    assert!(q.is_empty());
}

#[test]
fn stop_turns_off_and_drains_queue() {
    let cfg = EngineConfig::brain_interface();
    let mut e = SpiBuffers::new(cfg);
    let mut q = FrameQueue::new(4);
    e.setup(ADDRS);
    e.update(ADDRS.rx1, &mut q);
    e.update(ADDRS.rx2, &mut q);
    e.update(ADDRS.rx1, &mut q);
    assert_eq!(q.len(), 2);
    e.stop(&mut q);
    assert_eq!(e.state(), State::Off);
    assert!(q.is_empty());
    e.setup(ADDRS);
    assert_eq!(e.sequence_number(), 0);
}

#[test]
fn queue_of_four_keeps_first_four_of_six() {
    let mut q = FrameQueue::new(4);
    let mut taken = 0;
    for s in 0..6 {
        if q.try_push(frame(s)) {
            taken += 1;
        }
    }
    assert_eq!(taken, 4);
    assert_eq!(q.lost(), 2);
    assert_eq!(q.len(), 4);
    for s in 0..4 {
        let d = q.try_pop().unwrap();
        assert_eq!(d.sequence_number, s);
        assert_eq!(d.frames, vec![s as u16; 4]);
    }
    assert!(q.try_pop().is_none());
}

#[test]
fn engine_drops_on_full_queue_and_keeps_order() {
    let cfg = EngineConfig::brain_interface();
    let mut e = SpiBuffers::new(cfg);
    let mut q = FrameQueue::new(4);
    e.setup(ADDRS);
    e.update(ADDRS.rx1, &mut q);
    let mut lost = 0;
    for k in 0..6 {
        let rx = if k % 2 == 0 { ADDRS.rx2 } else { ADDRS.rx1 };
        match e.update(rx, &mut q) {
            Boundary::Frame { sequence_number, queued, .. } => {
                assert_eq!(sequence_number, k);
                if !queued {
                    lost += 1;
                }
            }
            other => panic!("unexpected {:?}", other),
        }
    }
    assert_eq!(lost, 2);
    assert_eq!(q.lost(), 2);
    let seqs: Vec<usize> = (0..4).map(|_| q.try_pop().unwrap().sequence_number).collect();
    assert_eq!(seqs, vec![0, 1, 2, 3]);
}

#[test]
fn delivered_numbers_increase_with_gaps_equal_to_drops() {
    let cfg = EngineConfig::brain_interface();
    let mut e = SpiBuffers::new(cfg);
    let mut q = FrameQueue::new(2);
    e.setup(ADDRS);
    e.update(ADDRS.rx1, &mut q);
    let mut delivered = Vec::new();
    let mut rx2 = true;
    // Boundaries come faster than the consumer: three per two reads.
    for k in 0..30 {
        e.update(if rx2 { ADDRS.rx2 } else { ADDRS.rx1 }, &mut q);
        rx2 = !rx2;
        if k % 3 == 0 {
            if let Some(d) = q.try_pop() {
                delivered.push(d.sequence_number);
            }
        }
    }
    while let Some(d) = q.try_pop() {
        delivered.push(d.sequence_number);
    }
    for w in delivered.windows(2) {
        assert!(w[0] < w[1]);
    }
    let missing = 30 - delivered.len() as u64;
    assert_eq!(missing, q.lost());
}

#[test]
fn frame_queue_capacity_and_bounds() {
    let q = FrameQueue::new(16);
    assert_eq!(q.capacity(), 16);
    assert_eq!(q.lost(), 0);
    assert!(q.is_empty());
}

#[test]
fn layouts_hold_their_settings() {
    let a = EngineConfig::brain_interface();
    assert_eq!((a.overflow, a.timer_interval, a.upper_cutoff, a.lower_cutoff), (500, 640, [46, 2, 30, 3], [44, 6]));
    let b = EngineConfig::sixteen_channels();
    assert_eq!((b.overflow, b.timer_interval, b.upper_cutoff, b.lower_cutoff), (200, 80, [3, 1, 13, 1], [44, 6]));
}

#[test]
fn stop_keeps_buffers() {
    let cfg = EngineConfig::brain_interface();
    let mut e = SpiBuffers::new(cfg);
    let mut q = FrameQueue::new(4);
    e.setup(ADDRS);
    e.dma_write(false, 3, 99);
    let tx = e.tx_buffer().clone();
    e.stop(&mut q);
    assert_eq!(e.tx_buffer(), &tx);
    assert_eq!(e.rx2_buffer()[3], 99);
}
