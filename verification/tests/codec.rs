use query_monitor::codec::decode_status;
use query_monitor::codec::decode_status_with_result;
use query_monitor::codec::has_terminal_line;
use query_monitor::codec::has_terminal_line_trimmed;
use query_monitor::datastructures::Channel;
use query_monitor::datastructures::Client;
use query_monitor::datastructures::WhoAmI;

#[test]
fn decode_status_success_passes_content_through() {
    let content = "clid=1 cid=2\nerror id=0 msg=ok\r\n";
    let out = decode_status(content.to_string()).unwrap();
    assert_eq!(out, content);
}

#[test]
fn decode_status_without_status_line_fails() {
    let e = decode_status("clid=1 cid=2\r\n".to_string()).unwrap_err();
    assert_eq!(e.code(), -4);
    assert_eq!(e.message().as_str(), "Status line not found");
}

#[test]
fn decode_status_with_malformed_status_fails() {
    let e = decode_status("error id=nan msg=ok\r\n".to_string()).unwrap_err();
    assert_eq!(e.code(), -6);
}

#[test]
fn nonzero_status_yields_error_despite_data_lines() {
    let e = decode_status("clid=1 cid=2|clid=3 cid=4\nerror id=5 msg=denied\r\n".to_string())
        .unwrap_err();
    assert_eq!(e.code(), 5);
    assert_eq!(e.message().as_str(), "denied");
    let e2 = decode_status_with_result::<WhoAmI>(
        "clid=1 cid=2\nerror id=1024 msg=no\r\n".to_string(),
    )
    .unwrap_err();
    assert_eq!(e2.code(), 1024);
}

#[test]
fn decode_rows_one_record_per_segment_in_order() {
    let reply = "clid=1 cid=10|clid=2 cid=20|clid=3 cid=30\nerror id=0 msg=ok\r\n";
    let rows = decode_status_with_result::<WhoAmI>(reply.to_string()).unwrap().unwrap();
    assert_eq!(rows.len(), 3);
    assert_eq!(rows[0].client_id(), 1);
    assert_eq!(rows[0].channel_id(), 10);
    assert_eq!(rows[1].client_id(), 2);
    assert_eq!(rows[2].client_id(), 3);
    assert_eq!(rows[2].channel_id(), 30);
}

#[test]
fn decode_rows_without_data_line_is_none() {
    let rows = decode_status_with_result::<WhoAmI>("error id=0 msg=ok\r\n".to_string()).unwrap();
    assert!(rows.is_none());
}

#[test]
fn decode_rows_with_bad_segment_is_parse_error() {
    let e = decode_status_with_result::<WhoAmI>(
        "clid=1 cid=2|clid=oops cid=4\nerror id=0 msg=ok\r\n".to_string(),
    )
    .unwrap_err();
    assert_eq!(e.code(), -6);
}

#[test]
fn scenario_two_channel_records() {
    let reply = "cid=1 pid=0 channel_name=Lobby total_clients=3|cid=2 pid=0 channel_name=AFK total_clients=0\nerror id=0 msg=ok\r\n";
    let rows = decode_status_with_result::<Channel>(reply.to_string()).unwrap().unwrap();
    assert_eq!(rows.len(), 2);
    assert_eq!(rows[0].cid(), 1);
    assert_eq!(rows[0].channel_name(), "Lobby");
    assert_eq!(rows[0].total_clients(), 3);
    assert_eq!(rows[1].cid(), 2);
    assert_eq!(rows[1].channel_name(), "AFK");
    assert_eq!(rows[1].total_clients(), 0);
}

#[test]
fn scenario_not_connected_status() {
    let e = decode_status("error id=1794 msg=not\\sconnected\r\n".to_string()).unwrap_err();
    assert_eq!(e.code(), 1794);
    assert_eq!(e.message().as_str(), "not connected");
}

#[test]
fn client_rows_decode_from_list_reply() {
    let reply = "clid=5 cid=1 client_database_id=42 client_type=0 client_nickname=watched|clid=8 cid=1 client_database_id=7 client_type=1 client_nickname=me\nerror id=0 msg=ok\r\n";
    let rows = decode_status_with_result::<Client>(reply.to_string()).unwrap().unwrap();
    assert_eq!(rows.len(), 2);
    assert_eq!(rows[0].client_database_id(), 42);
    assert_eq!(rows[1].client_nickname(), "me");
}

#[test]
fn terminal_marker_detection() {
    assert!(has_terminal_line("partial data\nerror id=0 msg=ok\r\n"));
    assert!(!has_terminal_line("partial data\nmore data"));
    assert!(!has_terminal_line("  error id=0 msg=ok\r\n"));
    assert!(has_terminal_line_trimmed("  error id=0 msg=ok\r\n"));
    assert!(!has_terminal_line_trimmed("errord id=0\r\n"));
}
