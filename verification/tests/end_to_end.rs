use rust_in_peace::address_book::AddressBook;
use rust_in_peace::collector::Collected;
use rust_in_peace::collector::Collector;
use rust_in_peace::dispatcher::Dispatch;
use rust_in_peace::dispatcher::Dispatcher;
use rust_in_peace::dispatcher::DispatcherMessage;
use rust_in_peace::ids::IslandId;
use rust_in_peace::island::Island;
use rust_in_peace::island::IslandEnv;
use rust_in_peace::island::IslandFactory;
use rust_in_peace::message::Message;
use rust_in_peace::network::publish_ip_table;
use rust_in_peace::network::wait_for_confirmations;
use rust_in_peace::network::wait_for_hosts;
use rust_in_peace::network::NetStep;
use rust_in_peace::network::NetworkCtx;
use rust_in_peace::network::Publication;
use rust_in_peace::records::read_publication;
use rust_in_peace::records::write_publication;
use rust_in_peace::server::TurnClock;
use rust_in_peace::settings::ClientSettings;
use rust_in_peace::settings::GlobalSyncSettings;
use rust_in_peace::settings::MapSettings;
use rust_in_peace::settings::NetworkSettings;
use rust_in_peace::simulation::Simulation;
use rust_in_peace::worker::LocalLoop;
use rust_in_peace::worker::LocalStep;
use rust_in_peace::worker::Released;
use rust_in_peace::worker::SyncedLoop;
use std::sync::mpsc;
use std::sync::mpsc::Receiver;
use std::sync::mpsc::Sender;
use std::time::Instant;

struct Recording {
    id: IslandId,
    env: IslandEnv,
    starts: u32,
    turns: Vec<(u32, Vec<Message>)>,
    finishes: u32,
}

impl Island for Recording {
    fn on_start(&mut self) {
        self.starts += 1;
    }

    fn do_turn(&mut self, turn_number: u32, messages: Vec<Message>) {
        self.turns.push((turn_number, messages));
    }

    fn on_finish(&mut self) {
        self.finishes += 1;
    }
}

struct RecordingFactory;

impl IslandFactory for RecordingFactory {
    type Made = Recording;

    fn create(&self, island_id: IslandId, island_env: IslandEnv) -> Recording {
        Recording { id: island_id, env: island_env, starts: 0, turns: Vec::new(), finishes: 0 }
    }
}

fn network(is_coordinator: bool, sync: bool, hosts_num: u32, ip: &str, port: u32) -> NetworkSettings {
    NetworkSettings {
        is_coordinator,
        hosts_num,
        coordinator_ip: String::from("10.0.0.1"),
        coordinator_rep_port: 5550,
        coordinator_pub_port: 5555,
        host_ip: String::from(ip),
        pub_port: port,
        metrics_port: 9000,
        global_sync: GlobalSyncSettings {
            sync,
            server_ip: String::from("10.0.0.9"),
            server_rep_port: 6000,
            server_pub_port: 6001,
        },
        map: MapSettings { chunk_len: 10 },
    }
}

struct Host {
    key: String,
    dispatcher: Dispatcher,
    dispatcher_tx: Sender<DispatcherMessage>,
    dispatcher_rx: Receiver<DispatcherMessage>,
    collector: Collector,
    collector_tx: Sender<Message>,
    collector_rx: Receiver<Message>,
    islands: Vec<Recording>,
    mailboxes: Vec<Receiver<Message>>,
}

fn host(settings: &ClientSettings, peers: Vec<(String, u32)>) -> Host {
    let ctx = NetworkCtx::new(settings.network.clone());
    let ids = Simulation::create_island_ids(settings.islands);
    let (dispatcher_tx, dispatcher_rx) = mpsc::channel();
    let (collector_tx, collector_rx) = mpsc::channel();
    let mut txes = Vec::new();
    let mut mailboxes = Vec::new();
    for _ in 0..settings.islands {
        let (tx, rx) = mpsc::channel();
        txes.push(tx);
        mailboxes.push(rx);
    }
    let factory = RecordingFactory;
    let mut islands = Vec::new();
    for (no, id) in ids.iter().enumerate() {
        let book =
            Simulation::create_address_book(txes.clone(), ids.clone(), no, dispatcher_tx.clone());
        islands.push(factory.create(*id, IslandEnv::new(book, Instant::now())));
    }
    let collector_book = AddressBook::new(dispatcher_tx.clone(), txes, ids);
    Host {
        key: ctx.private_key.clone(),
        dispatcher: Dispatcher::new(ctx.private_key.clone(), peers, settings.islands),
        dispatcher_tx,
        dispatcher_rx,
        collector: Collector::new(collector_book, ctx.private_key),
        collector_tx,
        collector_rx,
        islands,
        mailboxes,
    }
}

#[test]
fn one_host_two_islands_three_turns_local_mode() {
    let settings = ClientSettings {
        turns: 3,
        islands: 2,
        network: network(true, false, 1, "10.0.0.1", 5555),
        islands_sync: true,
    };
    assert_eq!(Simulation::task_count(&settings), 5);
    let mut h = host(&settings, vec![]);
    let mut loops = vec![
        LocalLoop::new(settings.turns, settings.islands_sync),
        LocalLoop::new(settings.turns, settings.islands_sync),
    ];
    let mut waits = vec![0u32, 0u32];
    let mut done = vec![false, false];
    while !(done[0] && done[1]) {
        for no in 0..2 {
            match loops[no].next() {
                LocalStep::Start => h.islands[no].on_start(),
                LocalStep::Turn(number) => {
                    let batch: Vec<Message> = h.mailboxes[no].try_iter().collect();
                    h.islands[no].do_turn(number, batch);
                }
                LocalStep::Sync => waits[no] += 1,
                LocalStep::Finish => h.islands[no].on_finish(),
                LocalStep::Done => done[no] = true,
            }
        }
    }
    let starts: u32 = h.islands.iter().map(|i| i.starts).sum();
    let turns: usize = h.islands.iter().map(|i| i.turns.len()).sum();
    let finishes: u32 = h.islands.iter().map(|i| i.finishes).sum();
    assert_eq!(starts, 2);
    assert_eq!(turns, 6);
    assert_eq!(finishes, 2);
    for island in h.islands.iter() {
        let numbers: Vec<u32> = island.turns.iter().map(|t| t.0).collect();
        assert_eq!(numbers, vec![0, 1, 2]);
    }
    assert_eq!(waits, vec![3, 3]);
    assert!(h.dispatcher_rx.try_recv().is_err());
    assert_eq!(
        Simulation::closing_notices(&settings),
        Some((DispatcherMessage::Info(Message::FinSim), Message::FinSim))
    );
    assert_eq!(
        Simulation::finish(&settings, &h.dispatcher_tx, &h.collector_tx),
        (true, true)
    );
    let notice = h.dispatcher_rx.try_recv().unwrap();
    assert_eq!(notice, DispatcherMessage::Info(Message::FinSim));
    assert_eq!(h.dispatcher.handle(notice), Dispatch::Finish);
    let stop = h.collector_rx.try_recv().unwrap();
    assert_eq!(stop, Message::FinSim);
    assert_eq!(h.collector.on_control(stop), Collected::Stopped { islands_told: true });
    assert!(h.dispatcher_rx.try_recv().is_err());
}

#[test]
fn two_hosts_one_island_each_sync_server_mode_two_turns() {
    let mut hosts = Vec::new();
    let mut loops = Vec::new();
    for (ip, port, peer) in [
        ("10.0.0.1", 5555u32, ("10.0.0.2", 5556u32)),
        ("10.0.0.2", 5556u32, ("10.0.0.1", 5555u32)),
    ] {
        let settings = ClientSettings {
            turns: 0,
            islands: 1,
            network: network(false, true, 2, ip, port),
            islands_sync: false,
        };
        hosts.push(host(&settings, vec![(String::from(peer.0), peer.1)]));
        loops.push(SyncedLoop::new());
    }
    for no in 0..2 {
        loops[no].start();
        hosts[no].islands[0].on_start();
    }
    let mut clock = TurnClock::new(2, 2);
    let mut published = Vec::new();
    let mut turn_dones = vec![0u32, 0u32];
    loop {
        let announcement = match clock.publish_next() {
            Some(msg) => msg,
            None => break,
        };
        published.push(announcement.clone());
        let mut replies = Vec::new();
        for no in 0..2 {
            let h = &mut hosts[no];
            let outcome = h.collector.on_wire(announcement.clone());
            let msg = h.mailboxes[0].try_recv().unwrap();
            match loops[no].on_message(msg) {
                Released::Turn(number, batch) => {
                    assert_eq!(outcome, Collected::Delivered);
                    h.islands[0].do_turn(number, batch);
                    assert!(loops[no].turn_done(&h.dispatcher_tx));
                    let ack = h.dispatcher_rx.try_recv().unwrap();
                    assert_eq!(ack, DispatcherMessage::Info(Message::TurnDone));
                    match h.dispatcher.handle(ack) {
                        Dispatch::Request { from, msg } => {
                            assert_eq!(from, h.key);
                            assert_eq!(msg, Message::TurnDone);
                            turn_dones[no] += 1;
                            replies.push(clock.on_request(&msg));
                        }
                        other => panic!("{:?}", other),
                    }
                }
                Released::Finish(left) => {
                    assert_eq!(
                        outcome,
                        Collected::Finished { islands_told: true, dispatcher_told: true }
                    );
                    assert_eq!(left, vec![]);
                    h.islands[0].on_finish();
                    loops[no].finish();
                    let notice = h.dispatcher_rx.try_recv().unwrap();
                    assert_eq!(h.dispatcher.handle(notice), Dispatch::Finish);
                }
                Released::Nothing => panic!("nothing was released"),
            }
        }
        if announcement != Message::FinSim {
            assert_eq!(replies, vec![Message::Okay, Message::Okay]);
        }
    }
    assert_eq!(published, vec![Message::NextTurn(1), Message::NextTurn(2), Message::FinSim]);
    assert_eq!(turn_dones, vec![2, 2]);
    for h in hosts.iter() {
        assert_eq!(h.islands[0].starts, 1);
        assert_eq!(h.islands[0].turns, vec![(1, vec![]), (2, vec![])]);
        assert_eq!(h.islands[0].finishes, 1);
        assert!(h.dispatcher.finished);
        assert!(h.collector.finished);
    }
}

#[test]
fn migration_delivery() {
    let a_settings = ClientSettings {
        turns: 1,
        islands: 1,
        network: network(true, false, 2, "10.0.0.1", 5555),
        islands_sync: false,
    };
    let b_settings = ClientSettings {
        turns: 1,
        islands: 2,
        network: network(false, false, 2, "10.0.0.2", 5556),
        islands_sync: false,
    };
    let mut a = host(&a_settings, vec![(String::from("10.0.0.2"), 5556)]);
    let mut b = host(&b_settings, vec![(String::from("10.0.0.1"), 5555)]);
    let payload = vec![0x00, 0xFF, 0x7E];

    assert_eq!(a.islands[0].env.send_to_rnd_global(Message::Agent(payload.clone())), Ok(()));
    let cmd = a.dispatcher_rx.try_recv().unwrap();
    let record = match a.dispatcher.handle(cmd) {
        Dispatch::Publish { topic, from, msg } => Publication { topic, from, msg },
        other => panic!("{:?}", other),
    };
    assert_eq!(record.topic, b.key);
    assert_eq!(record.from, a.key);
    let frames = write_publication(&record);
    let arrived = read_publication(&frames).unwrap();
    assert_eq!(arrived.topic, b.key);
    assert_eq!(b.collector.on_wire(arrived.msg), Collected::Delivered);

    let mut loops = vec![LocalLoop::new(1, false), LocalLoop::new(1, false)];
    for no in 0..2 {
        assert_eq!(loops[no].next(), LocalStep::Start);
        b.islands[no].on_start();
        assert_eq!(loops[no].next(), LocalStep::Turn(0));
        let batch: Vec<Message> = b.mailboxes[no].try_iter().collect();
        b.islands[no].do_turn(0, batch);
    }
    let batches: Vec<Vec<Message>> = b.islands.iter().map(|i| i.turns[0].1.clone()).collect();
    let holders = batches.iter().filter(|batch| !batch.is_empty()).count();
    assert_eq!(holders, 1);
    assert!(batches.contains(&vec![Message::Agent(payload)]));
    assert!(a.mailboxes[0].try_recv().is_err());
}

#[test]
fn bootstrap_with_coordinator() {
    let coordinator = NetworkCtx::new(network(true, false, 3, "10.0.0.1", 5555));
    let second = NetworkCtx::new(network(false, false, 3, "10.0.0.2", 5556));
    let third = NetworkCtx::new(network(false, false, 3, "10.0.0.3", 5557));
    let script = coordinator.init();
    let mut registry = wait_for_hosts(coordinator.settings.hosts_num);
    let mut confirmations = wait_for_confirmations(coordinator.settings.hosts_num, false);
    let mut hello_answers = Vec::new();
    let mut ready_answers = Vec::new();
    let mut published = Vec::new();
    let mut hellos = vec![third.send_hello_msg(), second.send_hello_msg()];
    for step in script {
        match step {
            NetStep::RegisterSelf => {
                hello_answers.push(coordinator.register_self(&mut registry));
            }
            NetStep::CollectHellos => {
                assert_eq!(registry.on_request(Message::HostReady), Message::Error);
                while !registry.is_complete() {
                    hello_answers.push(registry.on_request(hellos.pop().unwrap()));
                }
            }
            NetStep::PublishIpTable => {
                published.push(publish_ip_table(coordinator.private_key.as_str(), &registry.table));
            }
            NetStep::CollectReadies => {
                assert_eq!(confirmations.on_request(&Message::TurnDone), Message::Error);
                while !confirmations.is_complete() {
                    ready_answers.push(confirmations.on_request(&Message::HostReady));
                }
            }
            NetStep::PublishStartSim => published.push(coordinator.publish_start_sim()),
            _ => {}
        }
    }
    assert_eq!(hello_answers, vec![Message::Okay, Message::Okay, Message::Okay]);
    assert_eq!(ready_answers, vec![Message::Okay, Message::Okay]);
    assert_eq!(published.len(), 2);
    let table = match &published[0].msg {
        Message::IpTable(table) => table.clone(),
        other => panic!("{:?}", other),
    };
    assert_eq!(published[0].topic, "COORD_INFO");
    assert_eq!(
        table,
        vec![
            (String::from("10.0.0.1"), 5555),
            (String::from("10.0.0.2"), 5556),
            (String::from("10.0.0.3"), 5557),
        ]
    );
    assert_eq!(published[1].msg, Message::StartSim);
    assert_eq!(
        published.iter().filter(|record| record.msg == Message::StartSim).count(),
        1
    );
    assert_eq!(
        coordinator.wait_for_ip_table(Message::IpTable(table.clone())),
        Some(vec![(String::from("10.0.0.2"), 5556), (String::from("10.0.0.3"), 5557)])
    );
    assert_eq!(
        second.wait_for_ip_table(Message::IpTable(table.clone())),
        Some(vec![(String::from("10.0.0.1"), 5555), (String::from("10.0.0.3"), 5557)])
    );
    assert_eq!(
        third.wait_for_ip_table(Message::IpTable(table)),
        Some(vec![(String::from("10.0.0.1"), 5555), (String::from("10.0.0.2"), 5556)])
    );
    assert!(second.wait_for_signal(&published[1].msg));
}

#[test]
fn every_host_knows_exactly_the_others_after_the_handshake() {
    for n in 1..6u32 {
        let hosts: Vec<NetworkCtx> = (0..n)
            .map(|i| NetworkCtx::new(network(i == 0, false, n, "10.0.0.1", 5555 + i)))
            .collect();
        let mut registry = wait_for_hosts(n);
        for h in hosts.iter().rev() {
            assert_eq!(registry.on_request(h.send_hello_msg()), Message::Okay);
        }
        assert!(registry.is_complete());
        let record = publish_ip_table(hosts[0].private_key.as_str(), &registry.table);
        for (i, h) in hosts.iter().enumerate() {
            let mine = h.wait_for_ip_table(record.msg.clone()).unwrap();
            assert_eq!(mine.len() as u32, n - 1);
            for (j, other) in hosts.iter().enumerate() {
                let addr = (other.settings.host_ip.clone(), other.settings.pub_port);
                assert_eq!(mine.contains(&addr), i != j);
            }
        }
    }
}

#[test]
fn an_island_reaches_its_peers_through_its_environment() {
    let settings = ClientSettings {
        turns: 1,
        islands: 3,
        network: network(true, false, 1, "10.0.0.1", 5555),
        islands_sync: false,
    };
    let mut h = host(&settings, vec![]);
    let ids: Vec<IslandId> = h.islands.iter().map(|i| i.id).collect();
    assert_eq!(h.islands[0].env.get_active_islands_number(), 2);
    assert_eq!(h.islands[0].env.send_to_local(ids[2], Message::Agent(vec![1])), Ok(()));
    assert_eq!(h.mailboxes[2].try_recv(), Ok(Message::Agent(vec![1])));
    assert!(h.mailboxes[0].try_recv().is_err());
    assert!(h.mailboxes[1].try_recv().is_err());
    assert!(h.islands[0].env.send_to_local(ids[0], Message::Agent(vec![1])).is_err());
    assert_eq!(h.islands[1].env.send_to_all_local(Message::Agent(vec![2])), Ok(()));
    assert_eq!(h.mailboxes[0].try_recv(), Ok(Message::Agent(vec![2])));
    assert_eq!(h.mailboxes[2].try_recv(), Ok(Message::Agent(vec![2])));
    assert!(h.mailboxes[1].try_recv().is_err());
    assert_eq!(h.islands[2].env.send_to_rnd_local(Message::Agent(vec![3])), Ok(()));
    let got = h.mailboxes[0].try_iter().count() + h.mailboxes[1].try_iter().count();
    assert_eq!(got, 1);
    assert!(h.mailboxes[2].try_recv().is_err());
    assert_eq!(h.islands[0].env.send_to_all_global(Message::Agent(vec![4])), Ok(()));
    assert_eq!(
        h.islands[0].env.send_to_global((String::from("10.0.0.2"), 1), Message::Agent(vec![5])),
        Ok(())
    );
    assert_eq!(
        h.dispatcher_rx.try_iter().collect::<Vec<DispatcherMessage>>(),
        vec![
            DispatcherMessage::Broadcast(Message::Agent(vec![4])),
            DispatcherMessage::Unicast(Message::Agent(vec![5]), (String::from("10.0.0.2"), 1)),
        ]
    );
    let mailbox = h.mailboxes.remove(1);
    drop(mailbox);
    assert_eq!(h.islands[0].env.send_to_all_local(Message::Agent(vec![6])), Ok(()));
    assert_eq!(h.islands[0].env.get_active_islands_number(), 1);
}

#[test]
fn a_synced_host_is_not_taken_down_by_its_own_driver() {
    let settings = ClientSettings {
        turns: 0,
        islands: 1,
        network: network(false, true, 2, "10.0.0.1", 5555),
        islands_sync: false,
    };
    let h = host(&settings, vec![]);
    assert_eq!(Simulation::closing_notices(&settings), None);
    assert_eq!(Simulation::finish(&settings, &h.dispatcher_tx, &h.collector_tx), (false, false));
    assert!(h.dispatcher_rx.try_recv().is_err());
    assert!(h.collector_rx.try_recv().is_err());
}
