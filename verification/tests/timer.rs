use portmidi::time;
use portmidi::time::{PtAction, PtError, PtSignal, PtTicker, PtTimer};
use std::sync::mpsc::channel;
use std::time::Duration;

/// Blocks for `duration` milliseconds: waits that long for a message that
/// never comes.
fn pt_sleep(duration: i64) {
    let (_silent, wait) = channel::<()>();
    let _ = wait.recv_timeout(Duration::from_millis(time::pause_ms(duration)));
}

/// One round of the background context: wait a period, run the callback
/// with the tick's time, then look for a stop request.
fn tick<T>(ticker: &PtTicker, user_data: &mut T, callback: fn(u64, &mut T)) -> PtAction {
    pt_sleep(ticker.period());
    callback(ticker.tick_time(), user_data);
    ticker.poll()
}

#[derive(Debug, Clone, Copy)]
struct TestMutCallback {
    data: isize,
}

fn test_callback(time: u64, data: &mut TestMutCallback) {
    data.data = data.data + 1;
    println!("testcallback time:{} data:{:?}", time, data);
    let cal: isize = (time / 1000) as isize;
    assert_eq!(data.data, cal);
}

#[test]
fn test_timer() {
    let data: TestMutCallback = TestMutCallback { data: 0 };
    let (mut timer, ticker) = PtTimer::pt_start(1000);
    let mut mutdata = data;
    assert_eq!(timer.pt_started(), true);

    println!("test_timer start time:{} ", timer.pt_time());

    // 5000 ms go by, a tick every 1000 ms.
    while timer.pt_time() < 5000 {
        assert_eq!(tick(&ticker, &mut mutdata, test_callback), PtAction::Continue);
    }
    timer.pt_stop();
    assert_eq!(timer.pt_started(), false);
    println!("test_timer end time:{} ", timer.pt_time());
    assert_eq!(timer.pt_time() >= 5000, true);
    assert_eq!(timer.pt_time() < 6000, true);
    assert_eq!(data.data, 0);
    assert_eq!(mutdata.data, 5);
    assert_eq!(ticker.poll(), PtAction::Stop);
}

fn count_tick(_time: u64, ticks: &mut u32) {
    *ticks += 1;
}

#[test]
fn timer_ticks_once_a_period_until_stopped() {
    let (mut timer, ticker) = PtTimer::pt_start(100);
    let mut ticks: u32 = 0;
    let mut stopped = false;
    loop {
        let action = tick(&ticker, &mut ticks, count_tick);
        if action != PtAction::Continue {
            assert_eq!(action, PtAction::Stop);
            break;
        }
        if ticks == 5 {
            assert_eq!(timer.pt_stop(), PtError::PtNoError);
            stopped = true;
        }
    }
    // The tick that was due when the stop came still ran, and no other.
    assert_eq!(stopped, true);
    assert_eq!(ticks, 6);
    assert_eq!(timer.pt_started(), false);
    let elapsed = timer.pt_time();
    assert!(elapsed >= 600 && elapsed < 1600);
}

#[test]
fn timer_is_started_until_stopped() {
    let (mut timer, _ticker) = PtTimer::pt_start(10);
    assert_eq!(timer.pt_started(), true);
    assert_eq!(timer.pt_resolution(), 10);
    assert_eq!(timer.pt_stop(), PtError::PtNoError);
    assert_eq!(timer.pt_started(), false);
    assert_eq!(timer.pt_resolution(), 10);
}

#[test]
fn second_stop_is_refused() {
    let (mut timer, ticker) = PtTimer::pt_start(10);
    assert_eq!(timer.pt_stop(), PtError::PtNoError);
    assert_eq!(timer.pt_stop(), PtError::PtAlreadyStopped);
    assert_eq!(timer.pt_started(), false);
    // Only the first stop sent a message.
    assert_eq!(ticker.poll(), PtAction::Stop);
    assert_eq!(ticker.poll(), PtAction::Continue);
}

#[test]
fn stop_without_a_ticker_is_a_host_error() {
    let (mut timer, ticker) = PtTimer::pt_start(10);
    drop(ticker);
    assert_eq!(timer.pt_stop(), PtError::PtHostError);
    assert_eq!(timer.pt_started(), false);
    assert_eq!(timer.pt_stop(), PtError::PtAlreadyStopped);
}

#[test]
fn ticker_goes_on_until_told_to_stop() {
    let (mut timer, ticker) = PtTimer::pt_start(250);
    assert_eq!(ticker.period(), 250);
    assert_eq!(ticker.poll(), PtAction::Continue);
    assert_eq!(ticker.poll(), PtAction::Continue);
    assert_eq!(timer.pt_stop(), PtError::PtNoError);
    assert_eq!(ticker.poll(), PtAction::Stop);
}

#[test]
fn ticker_aborts_when_the_handle_is_gone() {
    let (timer, ticker) = PtTimer::pt_start(250);
    assert_eq!(ticker.poll(), PtAction::Continue);
    drop(timer);
    assert_eq!(ticker.poll(), PtAction::Abort);
}

#[test]
fn handle_and_ticker_tell_the_same_time() {
    let (timer, ticker) = PtTimer::pt_start(1);
    let before = timer.pt_time();
    let tick = ticker.tick_time();
    let after = timer.pt_time();
    assert!(before <= tick && tick <= after);
    assert!(after < 1000);
    pt_sleep(30);
    let later = ticker.tick_time();
    assert!(later >= tick + 30);
    assert!(timer.pt_time() >= later);
}

#[test]
fn elapsed_ms_is_whole_milliseconds() {
    assert_eq!(time::elapsed_ms(0, 0), 0);
    assert_eq!(time::elapsed_ms(0, 999_999), 0);
    assert_eq!(time::elapsed_ms(0, 1_000_000), 1);
    assert_eq!(time::elapsed_ms(0, 5_000_000_000), 5000);
    assert_eq!(time::elapsed_ms(7_000_000, 5_007_999_999), 5000);
    assert_eq!(time::elapsed_ms(123, 1_999_999 + 123), 1);
    assert_eq!(time::elapsed_ms(0, u64::MAX), 18_446_744_073_709);
    assert_eq!(time::elapsed_ms(u64::MAX, u64::MAX), 0);
}

#[test]
fn elapsed_ms_before_the_start_is_zero() {
    assert_eq!(time::elapsed_ms(10, 9), 0);
    assert_eq!(time::elapsed_ms(u64::MAX, 0), 0);
    assert_eq!(time::elapsed_ms(5_000_000_000, 0), 0);
}

#[test]
fn after_tick_follows_the_signal() {
    assert_eq!(time::after_tick(&PtSignal::Empty), PtAction::Continue);
    assert_eq!(time::after_tick(&PtSignal::Disconnected), PtAction::Abort);
    assert_eq!(time::after_tick(&PtSignal::Message("stop".to_string())), PtAction::Stop);
    assert_eq!(time::after_tick(&PtSignal::Message("Stop".to_string())), PtAction::Continue);
    assert_eq!(time::after_tick(&PtSignal::Message("stop ".to_string())), PtAction::Continue);
    assert_eq!(time::after_tick(&PtSignal::Message(String::new())), PtAction::Continue);
}

#[test]
fn stop_status_tells_whether_the_message_went_out() {
    assert_eq!(time::stop_status(true), PtError::PtNoError);
    assert_eq!(time::stop_status(false), PtError::PtHostError);
}

#[test]
fn pause_ms_is_never_negative() {
    assert_eq!(time::pause_ms(5000), 5000);
    assert_eq!(time::pause_ms(1), 1);
    assert_eq!(time::pause_ms(0), 0);
    assert_eq!(time::pause_ms(-1), 0);
    assert_eq!(time::pause_ms(i64::MIN), 0);
    assert_eq!(time::pause_ms(i64::MAX), 9_223_372_036_854_775_807);
}

#[test]
fn stop_request_is_what_ends_the_loop() {
    assert_eq!(time::stop_request(), "stop");
    assert_eq!(time::after_tick(&PtSignal::Message(time::stop_request())), PtAction::Stop);
}

#[test]
fn stop_sends_one_stop_request() {
    let (mut timer, ticker) = PtTimer::pt_start(10);
    assert_eq!(ticker.poll(), PtAction::Continue);
    assert_eq!(timer.pt_stop(), PtError::PtNoError);
    // One message arrived, and it is the order to stop.
    assert_eq!(ticker.poll(), PtAction::Stop);
    assert_eq!(ticker.poll(), PtAction::Continue);
}
