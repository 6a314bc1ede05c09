use echo_pedal::buffer::DelayBuffer;
use echo_pedal::dispatch::RxDispatcher;
use echo_pedal::dispatch::TxDispatcher;
use echo_pedal::dispatch::SILENCE;
use echo_pedal::phase::ChannelPhase;

#[test]
fn receiver_starts_at_left_top() {
    assert_eq!(RxDispatcher::new().phase(), ChannelPhase::LeftTop);
}

#[test]
fn transmitter_starts_at_left_top() {
    assert_eq!(TxDispatcher::new().phase(), ChannelPhase::LeftTop);
}

#[test]
fn receiver_files_left_top_into_top_array() {
    let mut buffer = DelayBuffer::<4>::new(2);
    let mut rx = RxDispatcher::new();
    rx.receive(&mut buffer, 0xaaaa);
    assert_eq!(rx.phase(), ChannelPhase::LeftBot);
    assert_eq!(buffer.sample_at(2), (0xaaaa, 0));
    assert_eq!(buffer.write_cursor(), 2);
}

#[test]
fn receiver_files_left_bot_and_advances() {
    let mut buffer = DelayBuffer::<4>::new(2);
    let mut rx = RxDispatcher::new();
    rx.receive(&mut buffer, 0xaaaa);
    rx.receive(&mut buffer, 0xbbbb);
    assert_eq!(rx.phase(), ChannelPhase::RightTop);
    assert_eq!(buffer.sample_at(2), (0xaaaa, 0xbbbb));
    assert_eq!(buffer.write_cursor(), 3);
}

#[test]
fn receiver_drops_right_channel() {
    let mut buffer = DelayBuffer::<4>::new(2);
    let mut rx = RxDispatcher::new();
    rx.receive(&mut buffer, 1);
    rx.receive(&mut buffer, 2);
    rx.receive(&mut buffer, 0xcccc);
    assert_eq!(rx.phase(), ChannelPhase::RightBot);
    rx.receive(&mut buffer, 0xdddd);
    assert_eq!(rx.phase(), ChannelPhase::LeftTop);
    assert_eq!(buffer.write_cursor(), 3);
    assert_eq!(buffer.sample_at(0), (0, 0));
    assert_eq!(buffer.sample_at(1), (0, 0));
    assert_eq!(buffer.sample_at(2), (1, 2));
    assert_eq!(buffer.sample_at(3), (0, 0));
}

#[test]
fn receiver_never_moves_read_cursor() {
    let mut buffer = DelayBuffer::<4>::new(2);
    let mut rx = RxDispatcher::new();
    for word in 0..40u16 {
        rx.receive(&mut buffer, word);
        assert_eq!(buffer.read_cursor(), 0);
    }
}

#[test]
fn write_cursor_advances_once_per_four_words() {
    let mut buffer = DelayBuffer::<5>::new(0);
    let mut rx = RxDispatcher::new();
    let order = [
        ChannelPhase::LeftTop,
        ChannelPhase::LeftBot,
        ChannelPhase::RightTop,
        ChannelPhase::RightBot,
    ];
    for pulses in 0..200usize {
        assert_eq!(rx.phase(), order[pulses % 4]);
        assert_eq!(buffer.write_cursor(), ((pulses + 2) / 4) % 5);
        rx.receive(&mut buffer, pulses as u16);
    }
}

#[test]
fn write_cursor_wraps_and_overwrites() {
    let mut buffer = DelayBuffer::<2>::new(0);
    let mut rx = RxDispatcher::new();
    for frame in 0..3u16 {
        rx.receive(&mut buffer, 100 + frame);
        rx.receive(&mut buffer, 200 + frame);
        rx.receive(&mut buffer, 300 + frame);
        rx.receive(&mut buffer, 400 + frame);
    }
    assert_eq!(buffer.write_cursor(), 1);
    assert_eq!(buffer.sample_at(0), (102, 202));
    assert_eq!(buffer.sample_at(1), (101, 201));
}

#[test]
fn transmitter_plays_sample_at_read_cursor() {
    let mut buffer = DelayBuffer::<4>::new(0);
    buffer.store_top(0x1111);
    buffer.store_bot(0x2222);
    let mut tx = TxDispatcher::new();
    assert_eq!(tx.transmit(&mut buffer), 0x1111);
    assert_eq!(tx.phase(), ChannelPhase::LeftBot);
    assert_eq!(buffer.read_cursor(), 0);
    assert_eq!(tx.transmit(&mut buffer), 0x2222);
    assert_eq!(tx.phase(), ChannelPhase::RightTop);
    assert_eq!(buffer.read_cursor(), 1);
}

#[test]
fn transmitter_sends_silence_on_the_right() {
    let mut buffer = DelayBuffer::<1>::new(0);
    buffer.store_top(0xffff);
    buffer.store_bot(0xffff);
    let mut tx = TxDispatcher::new();
    for _ in 0..50 {
        assert_eq!(tx.transmit(&mut buffer), 0xffff);
        assert_eq!(tx.transmit(&mut buffer), 0xffff);
        assert_eq!(tx.phase(), ChannelPhase::RightTop);
        assert_eq!(tx.transmit(&mut buffer), 0);
        assert_eq!(tx.phase(), ChannelPhase::RightBot);
        assert_eq!(tx.transmit(&mut buffer), SILENCE);
        assert_eq!(tx.phase(), ChannelPhase::LeftTop);
    }
}

#[test]
fn transmitter_leaves_samples_and_write_cursor_alone() {
    let mut buffer = DelayBuffer::<3>::new(1);
    buffer.store_top(5);
    buffer.store_bot(6);
    let mut tx = TxDispatcher::new();
    for _ in 0..24 {
        tx.transmit(&mut buffer);
        assert_eq!(buffer.write_cursor(), 1);
        assert_eq!(buffer.sample_at(0), (0, 0));
        assert_eq!(buffer.sample_at(1), (5, 6));
        assert_eq!(buffer.sample_at(2), (0, 0));
    }
}

#[test]
fn read_cursor_advances_once_per_four_pulses() {
    let mut buffer = DelayBuffer::<5>::new(0);
    let mut tx = TxDispatcher::new();
    let order = [
        ChannelPhase::LeftTop,
        ChannelPhase::LeftBot,
        ChannelPhase::RightTop,
        ChannelPhase::RightBot,
    ];
    for pulses in 0..200usize {
        assert_eq!(tx.phase(), order[pulses % 4]);
        assert_eq!(buffer.read_cursor(), ((pulses + 2) / 4) % 5);
        tx.transmit(&mut buffer);
    }
}
