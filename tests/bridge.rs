use qgateway_client_pywrap::cursor::Cursor;
use qgateway_client_pywrap::error::BridgeError;
use qgateway_client_pywrap::lifecycle::Lifecycle;
use qgateway_client_pywrap::pump::{Pump, PumpAction, PumpState, StopReason};

/// Feeds a pump from an open client; the callback records each item and
/// fails on the item equal to `fail_on`, if any.
fn drive(pump: &mut Pump, stream: Vec<Option<&'static str>>, fail_on: Option<&str>) -> Vec<String> {
    let mut seen = Vec::new();
    for next in stream {
        if pump.state() != PumpState::Awaiting {
            break;
        }
        match pump.on_stream(next, false) {
            PumpAction::Invoke(item) => {
                seen.push(item.to_string());
                let ok = Some(item) != fail_on;
                if pump.on_callback(ok, false).is_some() {
                    break;
                }
            }
            PumpAction::Stop(_) => break,
        }
    }
    seen
}

#[test]
fn lifecycle_starts_open() {
    let lc = Lifecycle::new();
    assert!(!lc.closed());
    assert_eq!(lc.check(false), Ok(()));
}

#[test]
fn operations_refused_after_close() {
    let mut lc = Lifecycle::new();
    assert_eq!(lc.close(), Ok(()));
    assert!(lc.closed());
    assert_eq!(lc.check(false), Err(BridgeError::Closed));
    assert_eq!(lc.check(true), Err(BridgeError::Closed));
}

#[test]
fn second_close_reports_closed() {
    let mut lc = Lifecycle::new();
    assert_eq!(lc.close(), Ok(()));
    assert_eq!(lc.close(), Err(BridgeError::Closed));
    assert!(lc.closed());
}

#[test]
fn blocking_from_worker_is_refused() {
    let lc = Lifecycle::new();
    assert_eq!(lc.check(true), Err(BridgeError::NestedBlocking));
}

#[test]
fn sends_around_a_close_are_each_signalled() {
    let mut lc = Lifecycle::new();
    let mut outcomes = Vec::new();
    outcomes.push(lc.check(false));
    outcomes.push(lc.check(false));
    outcomes.push(lc.close());
    outcomes.push(lc.check(false));
    outcomes.push(lc.check(false));
    assert_eq!(
        outcomes,
        vec![Ok(()), Ok(()), Ok(()), Err(BridgeError::Closed), Err(BridgeError::Closed)]
    );
}

#[test]
fn subscribe_two_keys_receives_x_then_y() {
    let lc = Lifecycle::new();
    assert_eq!(lc.check(false), Ok(()));
    let mut pump = Pump::new();
    let seen = drive(&mut pump, vec![Some("x"), Some("y"), None], None);
    assert_eq!(seen, vec!["x".to_string(), "y".to_string()]);
    assert_eq!(pump.state(), PumpState::Stopped(StopReason::StreamEnded));
}

#[test]
fn pump_delivers_each_item_once_in_order() {
    let mut pump = Pump::new();
    let seen = drive(&mut pump, vec![Some("a"), Some("b"), Some("c"), Some("d"), None], None);
    assert_eq!(seen, vec!["a", "b", "c", "d"]);
    assert_eq!(pump.state(), PumpState::Stopped(StopReason::StreamEnded));
}

#[test]
fn pump_on_empty_stream_never_invokes() {
    let mut pump = Pump::new();
    let seen = drive(&mut pump, vec![None], None);
    assert!(seen.is_empty());
    assert_eq!(pump.state(), PumpState::Stopped(StopReason::StreamEnded));
}

#[test]
fn pump_after_close_stops_without_invoking() {
    let mut pump = Pump::new();
    match pump.on_stream(Some("late"), true) {
        PumpAction::Stop(why) => assert_eq!(why, StopReason::ClientClosed),
        PumpAction::Invoke(_) => panic!("invoked after close"),
    }
    match pump.on_stream(Some("later"), true) {
        PumpAction::Stop(why) => assert_eq!(why, StopReason::ClientClosed),
        PumpAction::Invoke(_) => panic!("invoked after close"),
    }
    assert_eq!(pump.state(), PumpState::Stopped(StopReason::ClientClosed));
}

#[test]
fn pump_close_during_callback_stops_it() {
    let mut pump = Pump::new();
    assert!(matches!(pump.on_stream(Some(1u8), false), PumpAction::Invoke(1)));
    assert_eq!(pump.on_callback(true, true), Some(StopReason::ClientClosed));
    assert!(matches!(pump.on_stream(Some(2u8), false), PumpAction::Stop(StopReason::ClientClosed)));
}

#[test]
fn callback_failure_stops_only_its_pump() {
    let mut failing = Pump::new();
    let mut other = Pump::new();
    let seen = drive(&mut failing, vec![Some("p"), Some("q"), Some("r"), None], Some("q"));
    assert_eq!(seen, vec!["p", "q"]);
    assert_eq!(failing.state(), PumpState::Stopped(StopReason::CallbackFailed));
    assert!(matches!(failing.on_stream(Some("s"), false), PumpAction::Stop(StopReason::CallbackFailed)));
    let seen_other = drive(&mut other, vec![Some("u"), Some("v"), None], None);
    assert_eq!(seen_other, vec!["u", "v"]);
    assert_eq!(other.state(), PumpState::Stopped(StopReason::StreamEnded));
}

/// One call of `next` from the main thread over `stream`.
fn pull(cursor: &mut Cursor, stream: &mut Vec<&'static str>) -> Result<&'static str, BridgeError> {
    cursor.prepare(false)?;
    let fetched = if stream.is_empty() { None } else { Some(stream.remove(0)) };
    cursor.on_fetched(fetched)
}

#[test]
fn pull_returns_items_then_end_of_stream() {
    let mut cursor = Cursor::new();
    let mut stream = vec!["one", "two", "three"];
    assert_eq!(pull(&mut cursor, &mut stream), Ok("one"));
    assert_eq!(pull(&mut cursor, &mut stream), Ok("two"));
    assert_eq!(pull(&mut cursor, &mut stream), Ok("three"));
    assert_eq!(pull(&mut cursor, &mut stream), Err(BridgeError::EndOfStream));
    assert_eq!(pull(&mut cursor, &mut stream), Err(BridgeError::EndOfStream));
    assert!(cursor.ended());
}

#[test]
fn pull_on_stream_ended_without_items() {
    let mut cursor = Cursor::new();
    let mut stream = Vec::new();
    assert_eq!(pull(&mut cursor, &mut stream), Err(BridgeError::EndOfStream));
}

#[test]
fn pull_after_close_drains_then_ends() {
    let mut lc = Lifecycle::new();
    let mut cursor = Cursor::new();
    let mut stream = vec!["held"];
    assert_eq!(lc.close(), Ok(()));
    assert_eq!(pull(&mut cursor, &mut stream), Ok("held"));
    assert_eq!(pull(&mut cursor, &mut stream), Err(BridgeError::EndOfStream));
    assert_eq!(pull(&mut cursor, &mut stream), Err(BridgeError::EndOfStream));
    assert!(cursor.ended());
}

#[test]
fn pull_from_worker_is_refused() {
    let cursor = Cursor::new();
    assert_eq!(cursor.prepare(true), Err(BridgeError::NestedBlocking));
}
