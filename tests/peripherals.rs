use brain_interface::adv::{advertisement_data, service_list, supports_data_service, AdvertisementData, AdvertisementDataIterator};
use brain_interface::engine::Data;
use brain_interface::link::{led_level, read_done, usb_active, write_chunks, ConnectionState};
use brain_interface::liveview::liveview_packet;
use brain_interface::sync::{adjust_step, simulate_adjust, AdjustStep, AttemptEvents, SafeWindow};

#[test]
fn adjust_step_respects_window() {
    let w = SafeWindow::for_interval(640);
    assert_eq!(w, SafeWindow { lower: 25, upper: 620 });
    assert_eq!(adjust_step(w, 100, 24, 5), AdjustStep::Retry);
    assert_eq!(adjust_step(w, 100, 621, 5), AdjustStep::Retry);
    assert_eq!(adjust_step(w, 100, 25, 5), AdjustStep::Store(105));
    assert_eq!(adjust_step(w, 100, 620, 0u32.wrapping_sub(1000)), AdjustStep::Store(100u32.wrapping_sub(1000)));
}

#[test]
fn simulated_hardware_never_sees_a_third_value() {
    let w = SafeWindow::for_interval(640);
    let ev = |timer, edge, store_fails| AttemptEvents { timer, edge, store_fails };
    let events = vec![
        ev(10, true, false),
        ev(630, true, false),
        ev(300, false, true),
        ev(5, false, false),
        ev(300, false, false),
        ev(300, true, false),
    ];
    let mut reg = 1000u32;
    let (r, trace) = simulate_adjust(&mut reg, 500, 2, w, &events);
    assert_eq!(r, Some(1504));
    assert_eq!(reg, 1504);
    assert_eq!(trace.len(), 3);
    assert!(!trace[0].by_software && trace[0].before == 1000 && trace[0].after == 1002);
    assert!(!trace[1].by_software && trace[1].after == 1004);
    assert!(trace[2].by_software && trace[2].before == 1004 && trace[2].after == 1504);
}

#[test]
fn simulation_without_safe_attempt_stores_nothing() {
    let w = SafeWindow::for_interval(640);
    let events = vec![AttemptEvents { timer: 0, edge: true, store_fails: false }];
    let mut reg = 7u32;
    let (r, trace) = simulate_adjust(&mut reg, 1, 2, w, &events);
    assert_eq!(r, None);
    assert_eq!(reg, 9);
    assert_eq!(trace.len(), 1);
}

#[test]
fn advertisement_records() {
    let data = [2u8, 1, 6, 3, 3, 9, 0x18];
    let mut it = AdvertisementDataIterator::new(&data);
    assert_eq!(it.next(), Some(&[1u8, 6][..]));
    assert_eq!(it.next(), Some(&[3u8, 9, 0x18][..]));
    assert_eq!(it.next(), None);
    assert_eq!(it.next(), None);
}

#[test]
fn truncated_record_ends_the_list() {
    let data = [2u8, 1, 6, 5, 3, 9];
    let adv = AdvertisementData::new(&data);
    let mut it = adv.iter();
    assert_eq!(it.next(), Some(&[1u8, 6][..]));
    assert_eq!(it.next(), None);
}

#[test]
fn brain_interface_advertises_data_service() {
    let adv = advertisement_data();
    assert_eq!(adv.len(), 21);
    assert_eq!(&adv[..3], &[2, 1, 6]);
    assert_eq!(adv[3], 17);
    assert_eq!(&adv[4..], &service_list()[..]);
    assert!(supports_data_service(&adv));
}

#[test]
fn other_advertisements_are_not_the_service() {
    assert!(!supports_data_service(&[]));
    assert!(!supports_data_service(&[2, 1, 6, 3, 3, 9, 0x18]));
    let mut almost = advertisement_data();
    almost[20] ^= 1;
    assert!(!supports_data_service(&almost));
}

#[test]
fn liveview_minimum_and_maximum_per_channel() {
    let d = Data { channels: 2, sequence_number: 0, frames: vec![5, 0x0100, 3, 0x0200, 9, 0x0050] };
    let lv = liveview_packet(7, &d);
    assert_eq!(lv, vec![7, 3, 0, 9, 0, 0x50, 0, 0, 2]);
}

#[test]
fn liveview_of_empty_frame() {
    let d = Data { channels: 1, sequence_number: 0, frames: vec![] };
    assert_eq!(liveview_packet(0, &d), vec![0, 0xFF, 0xFF, 0, 0]);
}

#[test]
fn usb_message_chunks_end_with_short_packet() {
    assert_eq!(write_chunks(130, 64), vec![(0, 64), (64, 128), (128, 130)]);
    assert_eq!(write_chunks(128, 64), vec![(0, 64), (64, 128), (128, 128)]);
    assert_eq!(write_chunks(0, 64), vec![(0, 0)]);
    assert!(read_done(10, 64));
    assert!(!read_done(64, 64));
}

#[test]
fn host_activity_timeout() {
    assert!(!usb_active(None, 100, 10));
    assert!(usb_active(Some(95), 100, 10));
    assert!(!usb_active(Some(90), 100, 10));
    assert!(usb_active(Some(120), 100, 10));
}

#[test]
fn stop_command_is_sent_once() {
    let mut c = ConnectionState::new();
    assert!(!c.stop_needed(true));
    assert!(c.stop_needed(false));
    assert!(!c.stop_needed(false));
}

#[test]
fn led_pattern() {
    assert!(led_level(0, false));
    assert!(!led_level(1, false));
    assert!(led_level(1, true));
}

#[test]
fn first_safe_attempt_stores() {
    let w = SafeWindow::for_interval(640);
    let events = vec![
        AttemptEvents { timer: 100, edge: false, store_fails: false },
        AttemptEvents { timer: 100, edge: true, store_fails: false },
    ];
    let mut reg = 0x2000_0000u32;
    let (r, trace) = simulate_adjust(&mut reg, 0u32.wrapping_sub(1000), 2, w, &events);
    assert_eq!(r, Some(0x2000_0000u32 - 1000));
    assert_eq!(reg, 0x2000_0000u32 - 1000);
    assert_eq!(trace.len(), 1);
    assert!(trace[0].by_software);
}

#[test]
fn edge_between_load_and_store_forces_retry() {
    let w = SafeWindow::for_interval(640);
    let events = vec![
        AttemptEvents { timer: 300, edge: true, store_fails: false },
        AttemptEvents { timer: 300, edge: false, store_fails: false },
    ];
    let mut reg = 1000u32;
    let (r, trace) = simulate_adjust(&mut reg, 500, 2, w, &events);
    assert_eq!(r, Some(1502));
    assert_eq!(trace.len(), 2);
    assert!(!trace[0].by_software && trace[0].after == 1002);
    assert!(trace[1].by_software && trace[1].before == 1002 && trace[1].after == 1502);
}
