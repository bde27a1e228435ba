use jetsongpio::gpio_cdev::{
    GPIOEVENT_REQUEST_BOTH_EDGES, GPIOEVENT_REQUEST_FALLING_EDGE, GPIOEVENT_REQUEST_RISING_EDGE,
};
use jetsongpio::error::Error;
use jetsongpio::gpio_event::{
    handler_action, read_outcome, should_trigger, wait_action, wait_budget, Edge, EventManager,
    HandlerAction, InvalidEventFlagError, ReadOutcome, WaitAction, WaitBudget,
};
use std::convert::TryFrom;

#[test]
fn test_edge_conversion() {
    assert_eq!(u32::from(Edge::Rising), GPIOEVENT_REQUEST_RISING_EDGE);
    assert_eq!(u32::from(Edge::Falling), GPIOEVENT_REQUEST_FALLING_EDGE);
    assert_eq!(u32::from(Edge::Both), GPIOEVENT_REQUEST_BOTH_EDGES);
    assert_eq!(u32::from(Edge::NoEdge), 0);

    assert_eq!(
        Edge::try_from(GPIOEVENT_REQUEST_RISING_EDGE).unwrap(),
        Edge::Rising
    );
    assert_eq!(
        Edge::try_from(GPIOEVENT_REQUEST_FALLING_EDGE).unwrap(),
        Edge::Falling
    );
    assert_eq!(
        Edge::try_from(GPIOEVENT_REQUEST_BOTH_EDGES).unwrap(),
        Edge::Both
    );
    assert_eq!(Edge::try_from(0).unwrap(), Edge::NoEdge);

    // Test invalid flag
    assert!(Edge::try_from(999).is_err());
}

#[test]
fn invalid_flag_is_reported() {
    assert_eq!(Edge::try_from(4), Err(InvalidEventFlagError(4)));
}

#[test]
fn edge_flag_roundtrip() {
    for e in [Edge::NoEdge, Edge::Rising, Edge::Falling, Edge::Both] {
        assert_eq!(Edge::try_from(u32::from(e)), Ok(e));
    }
}

#[test]
fn debounce_without_interval_always_fires() {
    assert_eq!(should_trigger(None, Some(5), 6), (true, Some(6)));
    assert_eq!(should_trigger(None, None, 0), (true, Some(0)));
}

#[test]
fn debounce_with_interval() {
    // first call fires
    assert_eq!(should_trigger(Some(100), None, 10), (true, Some(10)));
    // too soon: no fire, last call kept
    assert_eq!(should_trigger(Some(100), Some(10), 109), (false, Some(10)));
    // exactly the interval: fires
    assert_eq!(should_trigger(Some(100), Some(10), 110), (true, Some(110)));
    // a clock before the last call counts as no time passed
    assert_eq!(should_trigger(Some(1), Some(50), 40), (false, Some(50)));
}

#[test]
fn read_outcomes() {
    assert_eq!(read_outcome(-1, 11, true, 0), ReadOutcome::Retry);
    assert_eq!(read_outcome(-1, 5, false, 0), ReadOutcome::Failed(5));
    assert_eq!(read_outcome(0, 0, false, 1), ReadOutcome::Empty);
    assert_eq!(read_outcome(16, 0, false, 1), ReadOutcome::EdgeSeen);
    assert_eq!(read_outcome(16, 0, false, 2), ReadOutcome::EdgeSeen);
    assert_eq!(read_outcome(16, 0, false, 3), ReadOutcome::UnknownEvent);
}

#[test]
fn wait_budgets() {
    assert_eq!(wait_budget(None, 1000), WaitBudget::Forever);
    assert_eq!(wait_budget(Some(100), 40), WaitBudget::Remaining(60));
    assert_eq!(wait_budget(Some(100), 100), WaitBudget::Expired);
    assert_eq!(wait_budget(Some(100), 150), WaitBudget::Expired);
}

#[test]
fn test_event_manager() {
    let manager = EventManager::new();
    assert!(!manager.event_added("test", 1));
}

#[test]
fn event_registry_add_and_remove() {
    let mut m = EventManager::new();
    assert_eq!(m.add_edge_detect("tegra234-gpio", 7, None), Ok(()));
    assert!(m.event_added("tegra234-gpio", 7));
    assert!(m.is_event_added("tegra234-gpio", 7));
    // the chip name is part of the key
    assert!(!m.event_added("tegra234-gpio-aon", 7));
    assert!(!m.event_added("tegra234-gpio", 8));
    // a second detection on the same channel is refused
    assert_eq!(m.add_edge_detect("tegra234-gpio", 7, Some(5)), Err(Error::EventAlreadyAdded(7)));
    assert_eq!(m.add_edge_detect("tegra234-gpio-aon", 7, None), Ok(()));
    assert!(m.remove_edge_detect("tegra234-gpio", 7));
    assert!(!m.event_added("tegra234-gpio", 7));
    assert!(m.event_added("tegra234-gpio-aon", 7));
    assert!(!m.remove_edge_detect("tegra234-gpio", 7));
}

#[test]
fn event_flag_is_read_once() {
    let mut m = EventManager::new();
    assert!(!m.edge_event_detected("chip", 3));
    m.add_edge_detect("chip", 3, None).unwrap();
    assert!(!m.edge_event_detected("chip", 3));
    assert!(m.record_edge("chip", 3, 1_000));
    assert!(m.edge_event_detected("chip", 3));
    assert!(!m.edge_event_detected("chip", 3));
    // no detection: nothing fires
    assert!(!m.record_edge("chip", 4, 1_000));
}

#[test]
fn event_registry_debounces() {
    let mut m = EventManager::new();
    m.add_edge_detect("chip", 11, Some(200)).unwrap();
    assert!(m.record_edge("chip", 11, 1_000));
    assert!(!m.record_edge("chip", 11, 1_150));
    assert!(m.edge_event_detected("chip", 11));
    // the suppressed edge did not move the last call
    assert!(m.record_edge("chip", 11, 1_200));
    assert!(!m.record_edge("chip", 11, 1_399));
    assert!(m.record_edge("chip", 11, 1_400));
}

#[test]
fn event_registry_clear() {
    let mut m = EventManager::new();
    m.add_edge_detect("a", 1, None).unwrap();
    m.add_edge_detect("b", 2, Some(10)).unwrap();
    let mut removed = m.clear();
    removed.sort();
    assert_eq!(removed, vec![("a".to_string(), 1), ("b".to_string(), 2)]);
    assert!(!m.event_added("a", 1));
    assert!(!m.event_added("b", 2));
    assert!(m.clear().is_empty());
}

#[test]
fn event_flag_over_a_run_of_edges() {
    let mut m = EventManager::new();
    m.add_edge_detect("chip", 5, Some(100)).unwrap();
    // no edge since the detection was added
    assert!(!m.edge_event_detected("chip", 5));
    // several edges, some debounced, then one read: reported once
    assert!(m.record_edge("chip", 5, 1_000));
    assert!(!m.record_edge("chip", 5, 1_050));
    assert!(m.record_edge("chip", 5, 1_100));
    assert!(m.edge_event_detected("chip", 5));
    assert!(!m.edge_event_detected("chip", 5));
    // only debounced edges since the read: nothing reported
    assert!(!m.record_edge("chip", 5, 1_150));
    assert!(!m.record_edge("chip", 5, 1_199));
    assert!(!m.edge_event_detected("chip", 5));
}

#[test]
fn actions_on_read_outcomes() {
    assert_eq!(wait_action(ReadOutcome::Retry), WaitAction::NextEvent);
    assert_eq!(wait_action(ReadOutcome::Empty), WaitAction::NextEvent);
    assert_eq!(wait_action(ReadOutcome::Failed(5)), WaitAction::ReadFailed(5));
    assert_eq!(wait_action(ReadOutcome::UnknownEvent), WaitAction::UnknownEvent);
    assert_eq!(wait_action(ReadOutcome::EdgeSeen), WaitAction::EdgeDetected);
    assert_eq!(handler_action(ReadOutcome::Retry), HandlerAction::NextEvent);
    assert_eq!(handler_action(ReadOutcome::Empty), HandlerAction::NextEvent);
    assert_eq!(handler_action(ReadOutcome::UnknownEvent), HandlerAction::NextEvent);
    assert_eq!(handler_action(ReadOutcome::Failed(5)), HandlerAction::StopReading);
    assert_eq!(handler_action(ReadOutcome::EdgeSeen), HandlerAction::RecordEdge);
    // a rising edge read ends a blocking wait at once
    assert_eq!(wait_action(read_outcome(16, 0, false, 1)), WaitAction::EdgeDetected);
}
