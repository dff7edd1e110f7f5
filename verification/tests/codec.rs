use rust_in_peace::codec::decode;
use rust_in_peace::codec::encode;
use rust_in_peace::message::Message;
use rust_in_peace::network::Publication;
use rust_in_peace::records::read_publication;
use rust_in_peace::records::read_request;
use rust_in_peace::records::write_publication;
use rust_in_peace::records::write_request;
use rust_in_peace::records::Request;

fn every_kind() -> Vec<Message> {
    vec![
        Message::MapSet(1, 2, -3),
        Message::MapGet(u64::MAX, 0, i32::MIN),
        Message::Agent(vec![]),
        Message::Agent(vec![0x00, 0xFF, 0x7E]),
        Message::Hello(String::from("127.0.0.1"), 5555),
        Message::Hello(String::from("za\u{17c}\u{f3}\u{142}\u{107}.example"), u32::MAX),
        Message::IpTable(vec![]),
        Message::IpTable(vec![
            (String::from("10.0.0.1"), 5555),
            (String::from(""), 0),
            (String::from("10.0.0.3"), 5557),
        ]),
        Message::StartSim,
        Message::FinSim,
        Message::HostReady,
        Message::NextTurn(0),
        Message::NextTurn(u32::MAX),
        Message::TurnDone,
        Message::Okay,
        Message::Error,
    ]
}

#[test]
fn codec_identity_of_an_agent() {
    let m = Message::Agent(vec![0x00, 0xFF, 0x7E]);
    assert_eq!(decode(&encode(&m)), Some(m));
}

#[test]
fn every_kind_of_message_survives_the_codec() {
    for m in every_kind() {
        let bytes = encode(&m);
        assert_eq!(decode(&bytes), Some(m));
    }
}

#[test]
fn an_agent_is_written_behind_its_length() {
    assert_eq!(
        encode(&Message::Agent(vec![0x00, 0xFF, 0x7E])),
        vec![2, 3, 0, 0, 0, 0, 0, 0, 0, 0x00, 0xFF, 0x7E]
    );
    assert_eq!(encode(&Message::Agent(vec![])), vec![2, 0, 0, 0, 0, 0, 0, 0, 0]);
}

#[test]
fn bare_kinds_are_one_byte() {
    assert_eq!(encode(&Message::StartSim), vec![5]);
    assert_eq!(encode(&Message::FinSim), vec![6]);
    assert_eq!(encode(&Message::HostReady), vec![7]);
    assert_eq!(encode(&Message::TurnDone), vec![9]);
    assert_eq!(encode(&Message::Okay), vec![10]);
    assert_eq!(encode(&Message::Error), vec![11]);
}

#[test]
fn numbers_are_written_lowest_byte_first() {
    assert_eq!(encode(&Message::NextTurn(1)), vec![8, 1, 0, 0, 0]);
    assert_eq!(encode(&Message::NextTurn(0x0102_0304)), vec![8, 4, 3, 2, 1]);
    assert_eq!(
        encode(&Message::MapSet(1, 0x0102, -1)),
        vec![0, 1, 0, 0, 0, 0, 0, 0, 0, 2, 1, 0, 0, 0, 0, 0, 0, 0xFF, 0xFF, 0xFF, 0xFF]
    );
    assert_eq!(
        encode(&Message::MapGet(0, 0, 5)),
        vec![1, 0, 0, 0, 0, 0, 0, 0, 0, 0, 0, 0, 0, 0, 0, 0, 0, 5, 0, 0, 0]
    );
}

#[test]
fn a_hello_carries_the_text_of_the_ip_and_the_port() {
    let mut expected = vec![3, 9, 0, 0, 0, 0, 0, 0, 0];
    expected.extend_from_slice(b"127.0.0.1");
    expected.extend_from_slice(&[0xB3, 0x15, 0, 0]);
    assert_eq!(encode(&Message::Hello(String::from("127.0.0.1"), 5555)), expected);
}

#[test]
fn a_table_is_written_behind_the_number_of_its_addresses() {
    let table = vec![(String::from("a"), 1), (String::from("bc"), 2)];
    assert_eq!(
        encode(&Message::IpTable(table)),
        vec![
            4, 2, 0, 0, 0, 0, 0, 0, 0, 1, 0, 0, 0, 0, 0, 0, 0, b'a', 1, 0, 0, 0, 2, 0, 0, 0, 0,
            0, 0, 0, b'b', b'c', 2, 0, 0, 0
        ]
    );
    assert_eq!(encode(&Message::IpTable(vec![])), vec![4, 0, 0, 0, 0, 0, 0, 0, 0]);
}

#[test]
fn bytes_that_stand_for_no_message_are_refused() {
    assert_eq!(decode(&[]), None);
    assert_eq!(decode(&[12]), None);
    assert_eq!(decode(&[255]), None);
    assert_eq!(decode(&[5, 0]), None);
    assert_eq!(decode(&[8, 1, 0, 0]), None);
    assert_eq!(decode(&[8, 1, 0, 0, 0, 0]), None);
    assert_eq!(decode(&[2, 3, 0, 0, 0, 0, 0, 0, 0, 1, 2]), None);
    assert_eq!(decode(&[2, 1, 0, 0, 0, 0, 0, 0, 0, 1, 2]), None);
    assert_eq!(decode(&[2, 255, 255, 255, 255, 255, 255, 255, 255, 1]), None);
    assert_eq!(decode(&[3, 1, 0, 0, 0, 0, 0, 0, 0, 0xFF, 1, 0, 0, 0]), None);
    assert_eq!(decode(&[3, 1, 0, 0, 0, 0, 0, 0, 0, b'a', 1, 0, 0]), None);
    assert_eq!(decode(&[4, 1, 0, 0, 0, 0, 0, 0, 0]), None);
    assert_eq!(decode(&[4, 255, 255, 255, 255, 255, 255, 255, 255]), None);
    assert_eq!(decode(&[0, 1, 0, 0, 0, 0, 0, 0, 0]), None);
}

#[test]
fn every_cut_of_a_message_is_refused() {
    for m in every_kind() {
        let bytes = encode(&m);
        for cut in 0..bytes.len() {
            assert_eq!(decode(&bytes[..cut]), None);
        }
        let mut longer = bytes.clone();
        longer.push(0);
        assert_eq!(decode(&longer), None);
    }
}

#[test]
fn a_publication_is_three_frames() {
    let record = Publication {
        topic: String::from("BROADCAST"),
        from: String::from("10.0.0.1:5555"),
        msg: Message::NextTurn(2),
    };
    let frames = write_publication(&record);
    assert_eq!(
        frames,
        vec![b"BROADCAST".to_vec(), b"10.0.0.1:5555".to_vec(), vec![8, 2, 0, 0, 0]]
    );
    assert_eq!(read_publication(&frames), Some(record));
}

#[test]
fn a_request_is_two_frames() {
    let record = Request { from: String::from("10.0.0.1:5555"), msg: Message::TurnDone };
    let frames = write_request(&record);
    assert_eq!(frames, vec![b"10.0.0.1:5555".to_vec(), vec![9]]);
    assert_eq!(read_request(&frames), Some(record));
}

#[test]
fn frames_that_are_no_record_are_refused() {
    assert_eq!(read_publication(&vec![]), None);
    assert_eq!(read_publication(&vec![b"k".to_vec(), vec![9]]), None);
    assert_eq!(read_publication(&vec![b"k".to_vec(), b"f".to_vec(), vec![9], vec![]]), None);
    assert_eq!(read_publication(&vec![vec![0xFF], b"f".to_vec(), vec![9]]), None);
    assert_eq!(read_publication(&vec![b"k".to_vec(), vec![0xC0], vec![9]]), None);
    assert_eq!(read_publication(&vec![b"k".to_vec(), b"f".to_vec(), vec![9, 9]]), None);
    assert_eq!(read_request(&vec![b"f".to_vec()]), None);
    assert_eq!(read_request(&vec![b"f".to_vec(), vec![9], vec![9]]), None);
    assert_eq!(read_request(&vec![vec![0x80], vec![9]]), None);
    assert_eq!(read_request(&vec![b"f".to_vec(), vec![]]), None);
}

#[test]
fn every_kind_of_message_survives_both_records() {
    for m in every_kind() {
        let publication = Publication {
            topic: String::from("10.0.0.2:5556"),
            from: String::from("10.0.0.1:5555"),
            msg: m.clone(),
        };
        assert_eq!(read_publication(&write_publication(&publication)), Some(publication));
        let request = Request { from: String::from("10.0.0.1:5555"), msg: m };
        assert_eq!(read_request(&write_request(&request)), Some(request));
    }
}
