use rust_in_peace::message::Message;
use rust_in_peace::server::TurnClock;

#[test]
fn the_clock_releases_a_turn_once_all_hosts_have_reported() {
    let mut clock = TurnClock::new(2, 2);
    assert_eq!(clock.publish_next(), Some(Message::NextTurn(1)));
    assert_eq!(clock.publish_next(), None);
    assert_eq!(clock.on_request(&Message::TurnDone), Message::Okay);
    assert_eq!(clock.publish_next(), None);
    assert_eq!(clock.on_request(&Message::TurnDone), Message::Okay);
    assert_eq!(clock.publish_next(), Some(Message::NextTurn(2)));
    assert_eq!(clock.publish_next(), None);
    assert_eq!(clock.on_request(&Message::TurnDone), Message::Okay);
    assert_eq!(clock.on_request(&Message::TurnDone), Message::Okay);
    assert!(!clock.finished);
    assert_eq!(clock.publish_next(), Some(Message::FinSim));
    assert!(clock.finished);
    assert_eq!(clock.publish_next(), None);
    assert_eq!(clock.on_request(&Message::TurnDone), Message::Error);
}

#[test]
fn the_clock_answers_error_to_what_it_does_not_wait_for() {
    let mut clock = TurnClock::new(1, 1);
    assert_eq!(clock.on_request(&Message::TurnDone), Message::Error);
    assert_eq!(clock.publish_next(), Some(Message::NextTurn(1)));
    assert_eq!(clock.on_request(&Message::HostReady), Message::Error);
    assert_eq!(clock.on_request(&Message::Agent(vec![1])), Message::Error);
    assert_eq!(clock.confirmations, 0);
    assert_eq!(clock.on_request(&Message::TurnDone), Message::Okay);
    assert_eq!(clock.on_request(&Message::TurnDone), Message::Error);
    assert_eq!(clock.publish_next(), Some(Message::FinSim));
}

#[test]
fn a_clock_without_turns_announces_the_end_at_once() {
    let mut clock = TurnClock::new(3, 0);
    assert_eq!(clock.publish_next(), Some(Message::FinSim));
    assert_eq!(clock.publish_next(), None);
}

#[test]
fn a_clock_without_hosts_releases_all_turns_at_once() {
    let mut clock = TurnClock::new(0, 3);
    assert_eq!(clock.publish_next(), Some(Message::NextTurn(1)));
    assert_eq!(clock.publish_next(), Some(Message::NextTurn(2)));
    assert_eq!(clock.publish_next(), Some(Message::NextTurn(3)));
    assert_eq!(clock.publish_next(), Some(Message::FinSim));
    assert_eq!(clock.publish_next(), None);
}
