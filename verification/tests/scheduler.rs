use echo_pedal::config::BUFFER_LENGTH;
use echo_pedal::config::DELAY_OFFSET;
use echo_pedal::phase::ChannelPhase;
use echo_pedal::scheduler::Fault;
use echo_pedal::scheduler::RxEvent;
use echo_pedal::scheduler::Scheduler;
use echo_pedal::scheduler::TxEvent;

fn lock_step_frame<const N: usize>(scheduler: &mut Scheduler<N>, words: [u16; 4]) -> [u16; 4] {
    let mut sent = [0xeeeeu16; 4];
    for slot in 0..4 {
        match scheduler.step(RxEvent::Word(words[slot]), TxEvent::Ready) {
            Ok(Some(word)) => sent[slot] = word,
            other => panic!("unexpected answer {:?}", other),
        }
    }
    sent
}

#[test]
fn new_scheduler_is_aligned_and_running() {
    let scheduler = Scheduler::<4>::new(2);
    assert_eq!(scheduler.rx_phase(), ChannelPhase::LeftTop);
    assert_eq!(scheduler.tx_phase(), ChannelPhase::LeftTop);
    assert_eq!(scheduler.fault(), None);
    assert_eq!(scheduler.buffer().write_cursor(), 2);
    assert_eq!(scheduler.buffer().read_cursor(), 0);
    assert_eq!(scheduler.buffer().delay(), 2);
}

#[test]
fn echo_comes_out_two_frames_later() {
    // buffer of 4 samples, delay 2, five input samples in lock step
    let mut scheduler = Scheduler::<4>::new(2);
    let input = [10u16, 20, 30, 40, 50];
    let mut output = [0u16; 5];
    for frame in 0..5 {
        let sent = lock_step_frame(&mut scheduler, [input[frame], 0, 0, 0]);
        output[frame] = sent[0];
    }
    assert_eq!(output, [0, 0, 10, 20, 30]);
}

#[test]
fn echo_carries_both_halves_of_the_sample() {
    let mut scheduler = Scheduler::<4>::new(2);
    let tops = [10u16, 20, 30, 40, 50];
    let bots = [11u16, 21, 31, 41, 51];
    let mut sent = [[0u16; 4]; 5];
    for frame in 0..5 {
        sent[frame] = lock_step_frame(&mut scheduler, [tops[frame], bots[frame], 0x7777, 0x8888]);
    }
    assert_eq!(sent[0], [0, 0, 0, 0]);
    assert_eq!(sent[1], [0, 0, 0, 0]);
    assert_eq!(sent[2], [10, 11, 0, 0]);
    assert_eq!(sent[3], [20, 21, 0, 0]);
    assert_eq!(sent[4], [30, 31, 0, 0]);
}

#[test]
fn echo_with_whole_receive_frames_before_transmit_frames() {
    let mut scheduler = Scheduler::<4>::new(2);
    let input = [10u16, 20, 30, 40, 50];
    let mut output = [0u16; 5];
    for frame in 0..5 {
        for word in [input[frame], input[frame] + 1, 9, 9] {
            assert_eq!(scheduler.step(RxEvent::Word(word), TxEvent::Idle), Ok(None));
        }
        let mut sent = [0u16; 4];
        for slot in 0..4 {
            sent[slot] = scheduler.step(RxEvent::Idle, TxEvent::Ready).unwrap().unwrap();
        }
        assert_eq!(sent[1], if frame >= 2 { input[frame - 2] + 1 } else { 0 });
        assert_eq!(sent[2], 0);
        assert_eq!(sent[3], 0);
        output[frame] = sent[0];
    }
    assert_eq!(output, [0, 0, 10, 20, 30]);
}

#[test]
fn echo_with_zero_delay_plays_the_sample_just_stored() {
    let mut scheduler = Scheduler::<3>::new(0);
    for frame in 0..10u16 {
        let sent = lock_step_frame(&mut scheduler, [frame + 100, frame + 200, 1, 2]);
        assert_eq!(sent, [frame + 100, frame + 200, 0, 0]);
    }
}

#[test]
fn echo_with_longest_delay() {
    let mut scheduler = Scheduler::<4>::new(3);
    let mut output = [0u16; 9];
    for frame in 0..9u16 {
        let sent = lock_step_frame(&mut scheduler, [frame + 1, 0, 0, 0]);
        output[frame as usize] = sent[0];
    }
    assert_eq!(output, [0, 0, 0, 1, 2, 3, 4, 5, 6]);
}

#[test]
fn echo_with_pedal_configuration() {
    let mut scheduler = Scheduler::<BUFFER_LENGTH>::new(DELAY_OFFSET);
    assert_eq!(scheduler.buffer().delay(), 19_200);
    for frame in 0..30_000u32 {
        let top = (frame % 65_521) as u16;
        let bot = (frame % 251) as u16;
        let sent = lock_step_frame(&mut scheduler, [top, bot, 0xffff, 0xffff]);
        if frame >= 19_200 {
            let then = frame - 19_200;
            assert_eq!(sent, [(then % 65_521) as u16, (then % 251) as u16, 0, 0]);
        } else {
            assert_eq!(sent, [0, 0, 0, 0]);
        }
    }
    assert_eq!(scheduler.buffer().delay(), 19_200);
}

#[test]
fn delay_is_constant_in_lock_step() {
    let mut scheduler = Scheduler::<5>::new(3);
    for frame in 0..40u16 {
        lock_step_frame(&mut scheduler, [frame, frame, frame, frame]);
        assert_eq!(scheduler.buffer().delay(), 3);
        assert_eq!(scheduler.rx_phase(), ChannelPhase::LeftTop);
        assert_eq!(scheduler.tx_phase(), ChannelPhase::LeftTop);
    }
}

#[test]
fn idle_polls_change_nothing() {
    let mut scheduler = Scheduler::<4>::new(2);
    scheduler.step(RxEvent::Word(5), TxEvent::Ready).unwrap();
    for _ in 0..10 {
        assert_eq!(scheduler.step(RxEvent::Idle, TxEvent::Idle), Ok(None));
        assert_eq!(scheduler.rx_phase(), ChannelPhase::LeftBot);
        assert_eq!(scheduler.tx_phase(), ChannelPhase::LeftBot);
        assert_eq!(scheduler.buffer().write_cursor(), 2);
        assert_eq!(scheduler.buffer().read_cursor(), 0);
        assert_eq!(scheduler.buffer().sample_at(2), (5, 0));
    }
}

#[test]
fn receive_and_transmit_are_independent() {
    let mut scheduler = Scheduler::<4>::new(2);
    assert_eq!(scheduler.step(RxEvent::Word(1), TxEvent::Idle), Ok(None));
    assert_eq!(scheduler.rx_phase(), ChannelPhase::LeftBot);
    assert_eq!(scheduler.tx_phase(), ChannelPhase::LeftTop);
    assert_eq!(scheduler.step(RxEvent::Idle, TxEvent::Ready), Ok(Some(0)));
    assert_eq!(scheduler.step(RxEvent::Idle, TxEvent::Ready), Ok(Some(0)));
    assert_eq!(scheduler.rx_phase(), ChannelPhase::LeftBot);
    assert_eq!(scheduler.tx_phase(), ChannelPhase::RightTop);
    assert_eq!(scheduler.buffer().read_cursor(), 1);
    assert_eq!(scheduler.buffer().write_cursor(), 2);
}

#[test]
fn overrun_mid_stream_halts() {
    let mut scheduler = Scheduler::<4>::new(2);
    lock_step_frame(&mut scheduler, [10, 11, 0, 0]);
    scheduler.step(RxEvent::Word(20), TxEvent::Ready).unwrap();
    assert_eq!(scheduler.step(RxEvent::Overrun, TxEvent::Ready), Err(Fault::Overrun));
    assert_eq!(scheduler.fault(), Some(Fault::Overrun));
    // nothing was consumed or produced on the faulting tick
    assert_eq!(scheduler.rx_phase(), ChannelPhase::LeftBot);
    assert_eq!(scheduler.tx_phase(), ChannelPhase::LeftBot);
    // and nothing is afterwards
    for word in 0..20u16 {
        assert_eq!(scheduler.step(RxEvent::Word(word), TxEvent::Ready), Err(Fault::Overrun));
        assert_eq!(scheduler.service_rx(RxEvent::Word(word)), Err(Fault::Overrun));
        assert_eq!(scheduler.service_tx(TxEvent::Ready), Err(Fault::Overrun));
        assert_eq!(scheduler.rx_phase(), ChannelPhase::LeftBot);
        assert_eq!(scheduler.tx_phase(), ChannelPhase::LeftBot);
        assert_eq!(scheduler.buffer().write_cursor(), 3);
        assert_eq!(scheduler.buffer().read_cursor(), 1);
        assert_eq!(scheduler.buffer().sample_at(3), (20, 0));
        assert_eq!(scheduler.buffer().sample_at(2), (10, 11));
    }
}

#[test]
fn underrun_halts_after_the_receive_side_was_served() {
    let mut scheduler = Scheduler::<4>::new(2);
    assert_eq!(scheduler.step(RxEvent::Word(7), TxEvent::Underrun), Err(Fault::Underrun));
    assert_eq!(scheduler.fault(), Some(Fault::Underrun));
    assert_eq!(scheduler.rx_phase(), ChannelPhase::LeftBot);
    assert_eq!(scheduler.tx_phase(), ChannelPhase::LeftTop);
    assert_eq!(scheduler.buffer().sample_at(2), (7, 0));
    assert_eq!(scheduler.step(RxEvent::Word(8), TxEvent::Ready), Err(Fault::Underrun));
    assert_eq!(scheduler.rx_phase(), ChannelPhase::LeftBot);
    assert_eq!(scheduler.buffer().sample_at(2), (7, 0));
}

#[test]
fn first_fault_is_the_one_reported() {
    let mut scheduler = Scheduler::<4>::new(2);
    assert_eq!(scheduler.step(RxEvent::Overrun, TxEvent::Underrun), Err(Fault::Overrun));
    assert_eq!(scheduler.step(RxEvent::Idle, TxEvent::Underrun), Err(Fault::Overrun));
    assert_eq!(scheduler.fault(), Some(Fault::Overrun));
}

#[test]
fn service_rx_answers() {
    let mut scheduler = Scheduler::<4>::new(2);
    assert_eq!(scheduler.service_rx(RxEvent::Idle), Ok(()));
    assert_eq!(scheduler.service_rx(RxEvent::Word(3)), Ok(()));
    assert_eq!(scheduler.service_rx(RxEvent::Overrun), Err(Fault::Overrun));
    assert_eq!(scheduler.service_rx(RxEvent::Idle), Err(Fault::Overrun));
}

#[test]
fn service_tx_answers() {
    let mut scheduler = Scheduler::<4>::new(0);
    scheduler.service_rx(RxEvent::Word(3)).unwrap();
    assert_eq!(scheduler.service_tx(TxEvent::Idle), Ok(None));
    assert_eq!(scheduler.service_tx(TxEvent::Ready), Ok(Some(3)));
    assert_eq!(scheduler.service_tx(TxEvent::Underrun), Err(Fault::Underrun));
    assert_eq!(scheduler.service_tx(TxEvent::Idle), Err(Fault::Underrun));
    assert_eq!(scheduler.service_tx(TxEvent::Ready), Err(Fault::Underrun));
}

#[test]
fn right_channel_slots_send_zero_whatever_the_buffer_holds() {
    let mut scheduler = Scheduler::<3>::new(1);
    // fill every cell with all-ones
    for _ in 0..3 {
        for _ in 0..4 {
            scheduler.step(RxEvent::Word(0xffff), TxEvent::Idle).unwrap();
        }
    }
    for cell in 0..3 {
        assert_eq!(scheduler.buffer().sample_at(cell), (0xffff, 0xffff));
    }
    for _ in 0..25 {
        assert_eq!(scheduler.step(RxEvent::Idle, TxEvent::Ready), Ok(Some(0xffff)));
        assert_eq!(scheduler.step(RxEvent::Idle, TxEvent::Ready), Ok(Some(0xffff)));
        assert_eq!(scheduler.tx_phase(), ChannelPhase::RightTop);
        assert_eq!(scheduler.step(RxEvent::Word(0xffff), TxEvent::Ready), Ok(Some(0)));
        assert_eq!(scheduler.tx_phase(), ChannelPhase::RightBot);
        assert_eq!(scheduler.step(RxEvent::Word(0xffff), TxEvent::Ready), Ok(Some(0)));
    }
}
