use rust_in_peace::address_book::AddressBook;
use rust_in_peace::collector::closing_messages;
use rust_in_peace::collector::Collected;
use rust_in_peace::collector::Collector;
use rust_in_peace::dispatcher::DispatcherMessage;
use rust_in_peace::ids::IslandId;
use rust_in_peace::message::Message;
use std::sync::mpsc;
use std::sync::mpsc::Receiver;

struct Host {
    collector: Collector,
    dispatcher_rx: Receiver<DispatcherMessage>,
    mailboxes: Vec<Receiver<Message>>,
}

fn host(islands: u128) -> Host {
    let (dispatcher_tx, dispatcher_rx) = mpsc::channel();
    let mut txes = Vec::new();
    let mut mailboxes = Vec::new();
    let mut ids = Vec::new();
    for i in 0..islands {
        let (tx, rx) = mpsc::channel();
        txes.push(tx);
        mailboxes.push(rx);
        ids.push(IslandId(i));
    }
    let book = AddressBook::new(dispatcher_tx, txes, ids);
    Host { collector: Collector::new(book, String::from("10.0.0.1:5555")), dispatcher_rx, mailboxes }
}

fn drained(rx: &Receiver<Message>) -> Vec<Message> {
    rx.try_iter().collect()
}

#[test]
fn next_turn_reaches_every_island() {
    let mut h = host(3);
    assert_eq!(h.collector.on_wire(Message::NextTurn(4)), Collected::Delivered);
    for rx in h.mailboxes.iter() {
        assert_eq!(drained(rx), vec![Message::NextTurn(4)]);
    }
    assert!(!h.collector.finished);
    assert!(h.dispatcher_rx.try_recv().is_err());
}

#[test]
fn an_agent_reaches_exactly_one_island() {
    let mut h = host(3);
    let agent = Message::Agent(vec![0x00, 0xFF, 0x7E]);
    assert_eq!(h.collector.on_wire(agent.clone()), Collected::Delivered);
    let got: Vec<Vec<Message>> = h.mailboxes.iter().map(drained).collect();
    assert_eq!(got.iter().map(|m| m.len()).sum::<usize>(), 1);
    assert!(got.iter().any(|m| *m == vec![agent.clone()]));
}

#[test]
fn an_agent_is_handed_back_when_no_island_is_left() {
    let mut h = host(2);
    h.mailboxes.clear();
    let agent = Message::Agent(vec![1, 2]);
    assert_eq!(h.collector.on_wire(agent.clone()), Collected::NoIslands(agent));
    assert_eq!(h.collector.address_book.islands.len(), 0);
    assert_eq!(
        h.collector.on_wire(Message::NextTurn(1)),
        Collected::NoIslands(Message::NextTurn(1))
    );
    assert!(!h.collector.finished);
}

#[test]
fn fin_sim_from_the_network_reaches_the_islands_and_the_dispatcher() {
    let mut h = host(2);
    assert_eq!(
        h.collector.on_wire(Message::FinSim),
        Collected::Finished { islands_told: true, dispatcher_told: true }
    );
    for rx in h.mailboxes.iter() {
        assert_eq!(drained(rx), vec![Message::FinSim]);
    }
    assert_eq!(h.dispatcher_rx.try_recv(), Ok(DispatcherMessage::Info(Message::FinSim)));
    assert!(h.collector.finished);
    assert_eq!(
        h.collector.on_wire(Message::Agent(vec![1])),
        Collected::Unexpected(Message::Agent(vec![1]))
    );
    for rx in h.mailboxes.iter() {
        assert_eq!(drained(rx), vec![]);
    }
}

#[test]
fn fin_sim_says_who_could_not_be_told() {
    let mut h = host(2);
    h.mailboxes.clear();
    let Host { mut collector, dispatcher_rx, .. } = h;
    drop(dispatcher_rx);
    assert_eq!(
        collector.on_wire(Message::FinSim),
        Collected::Finished { islands_told: false, dispatcher_told: false }
    );
    assert!(collector.finished);
}

#[test]
fn fin_sim_from_the_host_stops_the_collector() {
    let mut h = host(2);
    assert_eq!(h.collector.on_control(Message::FinSim), Collected::Stopped { islands_told: true });
    for rx in h.mailboxes.iter() {
        assert_eq!(drained(rx), vec![Message::FinSim]);
    }
    assert!(h.dispatcher_rx.try_recv().is_err());
    assert!(h.collector.finished);
    assert_eq!(
        h.collector.on_control(Message::FinSim),
        Collected::Unexpected(Message::FinSim)
    );
}

#[test]
fn the_host_can_tell_the_collector_nothing_else() {
    let mut h = host(1);
    assert_eq!(
        h.collector.on_control(Message::NextTurn(1)),
        Collected::Unexpected(Message::NextTurn(1))
    );
    assert_eq!(
        h.collector.on_control(Message::Agent(vec![1])),
        Collected::Unexpected(Message::Agent(vec![1]))
    );
    assert!(!h.collector.finished);
    assert_eq!(drained(&h.mailboxes[0]), vec![]);
}

#[test]
fn other_kinds_from_the_network_are_handed_back() {
    let mut h = host(2);
    for msg in vec![
        Message::Okay,
        Message::Error,
        Message::StartSim,
        Message::HostReady,
        Message::TurnDone,
        Message::Hello(String::from("h"), 1),
        Message::IpTable(vec![]),
        Message::MapSet(0, 0, 0),
        Message::MapGet(0, 0, 0),
    ] {
        assert_eq!(h.collector.on_wire(msg.clone()), Collected::Unexpected(msg));
    }
    for rx in h.mailboxes.iter() {
        assert_eq!(drained(rx), vec![]);
    }
    assert_eq!(h.collector.address_book.islands.len(), 2);
}

#[test]
fn dead_islands_are_forgotten() {
    let mut h = host(3);
    let dead = h.mailboxes.remove(1);
    drop(dead);
    assert_eq!(h.collector.on_wire(Message::NextTurn(1)), Collected::Delivered);
    assert_eq!(h.collector.address_book.islands, vec![IslandId(0), IslandId(2)]);
    assert_eq!(h.collector.address_book.addresses.len(), 2);
    for rx in h.mailboxes.iter() {
        assert_eq!(drained(rx), vec![Message::NextTurn(1)]);
    }
}

#[test]
fn the_end_is_passed_on_as_fin_sim_and_as_a_notice_of_it() {
    assert_eq!(
        closing_messages(),
        (Message::FinSim, DispatcherMessage::Info(Message::FinSim))
    );
}

#[test]
fn fin_sim_reaches_the_islands_before_the_dispatcher_hears_of_it() {
    let mut h = host(2);
    let dead = h.mailboxes.remove(0);
    drop(dead);
    assert_eq!(
        h.collector.on_wire(Message::FinSim),
        Collected::Finished { islands_told: true, dispatcher_told: true }
    );
    assert_eq!(drained(&h.mailboxes[0]), vec![Message::FinSim]);
    assert_eq!(
        h.dispatcher_rx.try_iter().collect::<Vec<DispatcherMessage>>(),
        vec![DispatcherMessage::Info(Message::FinSim)]
    );
}
