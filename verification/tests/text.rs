use rust_in_peace::ids::short_id;
use rust_in_peace::ids::IslandId;
use rust_in_peace::message::Message;
use rust_in_peace::metrics::inc_received_messages;
use rust_in_peace::metrics::ReceivedMessages;
use rust_in_peace::text::addr_list_string;
use rust_in_peace::text::address_key;
use rust_in_peace::text::byte_list_string;
use rust_in_peace::text::decimal_string;
use rust_in_peace::text::endpoint;
use rust_in_peace::text::entries_list_string;
use rust_in_peace::text::signed_decimal_string;
use rust_in_peace::text::BROADCAST_KEY;
use rust_in_peace::text::COORD_INFO_KEY;
use rust_in_peace::text::SERVER_INFO_KEY;
use rust_in_peace::utils::parse_input_args;
use uuid::Uuid;

#[test]
fn topic_keys_are_the_agreed_words() {
    assert_eq!(COORD_INFO_KEY, "COORD_INFO");
    assert_eq!(SERVER_INFO_KEY, "SERVER_INFO");
    assert_eq!(BROADCAST_KEY, "BROADCAST");
}

#[test]
fn numbers_are_written_in_decimal() {
    assert_eq!(decimal_string(0), "0");
    assert_eq!(decimal_string(7), "7");
    assert_eq!(decimal_string(10), "10");
    assert_eq!(decimal_string(5555), "5555");
    assert_eq!(decimal_string(1234567890), "1234567890");
    assert_eq!(decimal_string(u64::MAX), "18446744073709551615");
    assert_eq!(signed_decimal_string(0), "0");
    assert_eq!(signed_decimal_string(42), "42");
    assert_eq!(signed_decimal_string(-1), "-1");
    assert_eq!(signed_decimal_string(i32::MAX), "2147483647");
    assert_eq!(signed_decimal_string(i32::MIN), "-2147483648");
}

#[test]
fn a_host_is_named_by_its_ip_and_port() {
    assert_eq!(address_key("127.0.0.1", 5555), "127.0.0.1:5555");
    assert_eq!(address_key("", 0), ":0");
    assert_eq!(address_key("host", u32::MAX), "host:4294967295");
    assert_eq!(endpoint("127.0.0.1", 5555), "tcp://127.0.0.1:5555");
    assert_eq!(endpoint("0.0.0.0", 80), "tcp://0.0.0.0:80");
}

#[test]
fn lists_are_laid_out_one_item_to_a_line() {
    assert_eq!(byte_list_string(&vec![]), "[]");
    assert_eq!(byte_list_string(&vec![0, 255, 126]), "[\n    0,\n    255,\n    126,\n]");
    assert_eq!(byte_list_string(&vec![0, 255, 126]), format!("{:#?}", vec![0u8, 255, 126]));
    assert_eq!(addr_list_string(&vec![]), "[]");
    let table = vec![(String::from("127.0.0.1"), 5555u32), (String::from("a\"b\n"), 1u32)];
    assert_eq!(
        addr_list_string(&table),
        "[\n    (\n        \"127.0.0.1\",\n        5555,\n    ),\n    (\n        \"a\\\"b\\n\",\n        1,\n    ),\n]"
    );
    assert_eq!(addr_list_string(&table), format!("{:#?}", table));
}

#[test]
fn messages_are_written_for_the_log() {
    assert_eq!(Message::StartSim.as_string(), "START SIM");
    assert_eq!(Message::FinSim.as_string(), "FIN SIM");
    assert_eq!(Message::HostReady.as_string(), "HOST READY");
    assert_eq!(Message::TurnDone.as_string(), "TURN DONE");
    assert_eq!(Message::Okay.as_string(), "OK");
    assert_eq!(Message::Error.as_string(), "ERROR");
    assert_eq!(Message::NextTurn(12).as_string(), "NEXT TURN (12)");
    assert_eq!(Message::MapSet(1, 2, -3).as_string(), "MAP SET (1, 2) -> -3");
    assert_eq!(Message::MapGet(10, 20, 30).as_string(), "MAP GET (10, 20) -> 30");
    assert_eq!(
        Message::Hello(String::from("10.0.0.1"), 5555).as_string(),
        "HELLO FROM 10.0.0.1:5555"
    );
    assert_eq!(Message::Agent(vec![1, 2]).as_string(), format!("{:#?}", vec![1u8, 2]));
    let table = vec![(String::from("10.0.0.1"), 5555u32)];
    assert_eq!(
        Message::IpTable(table.clone()).as_string(),
        format!("IP TABLE {:#?}", table)
    );
    assert_eq!(Message::IpTable(vec![]).as_string(), "IP TABLE []");
}

#[test]
fn a_clone_of_a_message_is_the_same_message() {
    let messages = vec![
        Message::Agent(vec![1, 2, 3]),
        Message::Hello(String::from("h"), 1),
        Message::IpTable(vec![(String::from("a"), 1), (String::from("b"), 2)]),
        Message::MapSet(1, 2, 3),
        Message::MapGet(4, 5, 6),
        Message::NextTurn(9),
        Message::StartSim,
        Message::FinSim,
        Message::HostReady,
        Message::TurnDone,
        Message::Okay,
        Message::Error,
    ];
    for m in messages {
        assert_eq!(m.clone(), m);
    }
}

#[test]
fn the_short_form_of_a_name_is_its_first_five_digits() {
    let id = IslandId(0x936DA01F9ABD4D9D80C702AF85C822A8);
    assert_eq!(short_id(&id), "936da");
    assert_eq!(short_id(&id), Uuid::from_u128(id.0).to_string()[..5]);
    assert_eq!(short_id(&IslandId(0)), "00000");
    assert_eq!(short_id(&IslandId(u128::MAX)), "fffff");
    assert_eq!(short_id(&IslandId(0x0123456789abcdef0123456789abcdef)), "01234");
    let drawn = IslandId::random();
    assert_eq!(short_id(&drawn), Uuid::from_u128(drawn.0).to_string()[..5]);
}

#[test]
fn a_drawn_name_is_marked_as_random() {
    for _ in 0..32 {
        let id = IslandId::random();
        assert_eq!((id.0 >> 76) & 0xf, 4);
        assert_eq!((id.0 >> 62) & 0x3, 2);
        assert_eq!(Uuid::from_u128(id.0).get_version_num(), 4);
    }
    assert_ne!(IslandId::random(), IslandId::random());
}

#[test]
fn the_settings_file_is_named_behind_the_program() {
    let three = vec![String::from("host"), String::from("settings.toml"), String::from("x")];
    let two = vec![String::from("server"), String::from("server.toml")];
    assert_eq!(parse_input_args(&three, 3), Some(String::from("settings.toml")));
    assert_eq!(parse_input_args(&two, 2), Some(String::from("server.toml")));
    assert_eq!(parse_input_args(&three, 2), None);
    assert_eq!(parse_input_args(&two, 3), None);
    assert_eq!(parse_input_args(&vec![String::from("host")], 1), None);
    assert_eq!(parse_input_args(&vec![], 0), None);
}

#[test]
fn received_messages_are_counted_by_source_target_and_status() {
    let received = ReceivedMessages::new().unwrap();
    assert!(ReceivedMessages::new().is_none());
    let from = String::from("10.0.0.2:5556");
    let target = String::from("10.0.0.1:5555");
    assert!(inc_received_messages(&received, from.clone(), target.clone(), String::from("200")));
    assert!(inc_received_messages(&received, from.clone(), target.clone(), String::from("200")));
    assert!(inc_received_messages(&received, from, target, String::from("500")));
    let mut seen = Vec::new();
    for family in prometheus::gather() {
        if family.get_name() == "messages_recv_total" {
            for metric in family.get_metric() {
                let status = metric
                    .get_label()
                    .iter()
                    .find(|pair| pair.get_name() == "status")
                    .map(|pair| pair.get_value().to_string());
                seen.push((status, metric.get_gauge().get_value()));
            }
        }
    }
    seen.sort_by_key(|entry| entry.0.clone());
    assert_eq!(
        seen,
        vec![(Some(String::from("200")), 2.0), (Some(String::from("500")), 1.0)]
    );
}

#[test]
fn entries_are_laid_out_with_the_text_of_the_host_as_given() {
    assert_eq!(entries_list_string(&vec![]), "[]");
    assert_eq!(
        entries_list_string(&vec![(String::from("<a>"), 7u32), (String::from(""), 0u32)]),
        "[\n    (\n        <a>,\n        7,\n    ),\n    (\n        ,\n        0,\n    ),\n]"
    );
    assert_eq!(
        entries_list_string(&vec![(String::from("\"127.0.0.1\""), 5555u32)]),
        format!("{:#?}", vec![(String::from("127.0.0.1"), 5555u32)])
    );
}

fn counts_of_received_messages() -> Vec<f64> {
    let mut counts = Vec::new();
    for family in prometheus::gather() {
        if family.get_name() == "messages_recv_total" {
            for metric in family.get_metric() {
                counts.push(metric.get_gauge().get_value());
            }
        }
    }
    counts
}

#[test]
fn the_count_of_received_messages_can_start_anew() {
    let received = ReceivedMessages::new().unwrap();
    let from = String::from("10.0.0.2:5556");
    let target = String::from("10.0.0.1:5555");
    assert!(inc_received_messages(&received, from.clone(), target.clone(), String::from("200")));
    assert!(inc_received_messages(&received, from.clone(), target.clone(), String::from("200")));
    assert_eq!(counts_of_received_messages(), vec![2.0]);
    received.reset();
    assert_eq!(counts_of_received_messages(), vec![]);
    assert!(inc_received_messages(&received, from, target, String::from("200")));
    assert_eq!(counts_of_received_messages(), vec![1.0]);
}
