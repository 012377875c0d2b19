use query_monitor::codec::decode_status_with_result;
use query_monitor::datastructures::Channel;
use query_monitor::datastructures::Client;
use query_monitor::datastructures::ClientEdit;
use query_monitor::datastructures::FromQueryString;
use query_monitor::datastructures::QueryError;
use query_monitor::datastructures::WhoAmI;
use query_monitor::session::channel_list_payload;
use query_monitor::session::client_list_payload;
use query_monitor::session::decode_basic;
use query_monitor::session::decode_client_variable;
use query_monitor::session::decode_first_row;
use query_monitor::session::decode_rows_required;
use query_monitor::session::find_channel_id;
use query_monitor::session::login_payload;
use query_monitor::session::logout_payload;
use query_monitor::session::query_description_payload;
use query_monitor::session::resolve_database_id;
use query_monitor::session::server_connect_info_payload;
use query_monitor::session::set_channel_password_payload;
use query_monitor::session::should_retry;
use query_monitor::session::switch_channel_payload;
use query_monitor::session::update_description_payload;
use query_monitor::session::who_am_i_payload;
use query_monitor::session::check_self_duplicate;

fn clients_from(records: &[&str]) -> Vec<Client> {
    let mut v = Vec::new();
    for r in records {
        v.push(Client::from_query(r).unwrap());
    }
    v
}

#[test]
fn payloads_are_terminated_command_lines() {
    assert_eq!(who_am_i_payload(), "whoami\n\r".to_string());
    assert_eq!(client_list_payload(), "clientlist\n\r".to_string());
    assert_eq!(channel_list_payload(), "channellist\n\r".to_string());
    assert_eq!(logout_payload(), "quit\n\r".to_string());
    assert_eq!(server_connect_info_payload(), "serverconnectinfo\n\r".to_string());
}

#[test]
fn login_payload_escapes_the_key() {
    assert_eq!(login_payload("abc123"), "auth apikey=abc123\n\r".to_string());
    assert_eq!(login_payload("k y"), "auth apikey=k\\sy\n\r".to_string());
}

#[test]
fn parameterized_payloads_format_and_escape() {
    assert_eq!(
        set_channel_password_payload(2, "p w/d\\"),
        "channeledit cid=2 channel_password=p\\sw\\/d\\\\\n\r".to_string()
    );
    assert_eq!(switch_channel_payload(5, 8), "clientmove cid=5 clid=8\n\r".to_string());
    assert_eq!(
        update_description_payload(&ClientEdit::new(7, "hello world".to_string())),
        "clientdbedit cldbid=7 client_description=hello\\sworld\n\r".to_string()
    );
    assert_eq!(
        query_description_payload(-3),
        "clientvariable clid=-3 client_description\n\r".to_string()
    );
}

#[test]
fn payload_numbers_cover_the_extremes() {
    assert_eq!(switch_channel_payload(0, 0), "clientmove cid=0 clid=0\n\r".to_string());
    assert_eq!(
        query_description_payload(i64::MIN),
        "clientvariable clid=-9223372036854775808 client_description\n\r".to_string()
    );
    assert_eq!(
        switch_channel_payload(i64::MAX, -1),
        "clientmove cid=9223372036854775807 clid=-1\n\r".to_string()
    );
}

#[test]
fn decode_basic_checks_only_the_status() {
    assert!(decode_basic("error id=0 msg=ok\r\n".to_string()).is_ok());
    let e = decode_basic("error id=2568 msg=denied\r\n".to_string()).unwrap_err();
    assert_eq!(e.code(), 2568);
}

#[test]
fn decode_rows_required_reports_missing_result() {
    let e = decode_rows_required::<Client>("error id=0 msg=ok\r\n".to_string(), "clientlist\n\r")
        .unwrap_err();
    assert_eq!(e.code(), -7);
    assert_eq!(e.message().as_str(), "Result not found: \"clientlist\\n\\r\"");
}

#[test]
fn decode_first_row_takes_the_first_record() {
    let w = decode_first_row::<WhoAmI>(
        "clid=3 cid=4|clid=9 cid=9\nerror id=0 msg=ok\r\n".to_string(),
        "whoami\n\r",
    )
    .unwrap();
    assert_eq!(w.client_id(), 3);
    assert_eq!(w.channel_id(), 4);
}

#[test]
fn decode_client_variable_reports_missing_data_line() {
    let v = decode_client_variable(
        "clid=3 client_description=text\nerror id=0 msg=ok\r\n".to_string(),
    )
    .unwrap();
    assert_eq!(v.client_id(), 3);
    assert_eq!(v.description(), "text");
    let e = decode_client_variable("error id=0 msg=ok\r\n".to_string()).unwrap_err();
    assert_eq!(e.code(), -8);
    assert_eq!(e.message().as_str(), "Query client error: \"str\"");
}

#[test]
fn retry_applies_only_to_the_parse_error_kind() {
    assert!(should_retry(&QueryError::parse_error("m".to_string())));
    assert!(!should_retry(&QueryError::status_not_found()));
    assert!(!should_retry(&QueryError::result_not_found("p")));
}

#[test]
fn resolve_database_id_finds_own_record() {
    let clients = clients_from(&[
        "clid=1 cid=1 client_database_id=11 client_type=0 client_nickname=a",
        "clid=2 cid=1 client_database_id=22 client_type=0 client_nickname=b",
    ]);
    assert_eq!(resolve_database_id(&clients, 2).unwrap(), 22);
}

#[test]
fn resolve_database_id_last_match_wins() {
    let clients = clients_from(&[
        "clid=2 cid=1 client_database_id=5 client_type=0 client_nickname=a",
        "clid=2 cid=1 client_database_id=6 client_type=0 client_nickname=b",
    ]);
    assert_eq!(resolve_database_id(&clients, 2).unwrap(), 6);
}

#[test]
fn resolve_database_id_without_match_fails() {
    let clients = clients_from(&[
        "clid=1 cid=1 client_database_id=11 client_type=0 client_nickname=a",
    ]);
    let e = resolve_database_id(&clients, 9).unwrap_err();
    assert_eq!(e.code(), -3);
}

#[test]
fn resolve_database_id_is_idempotent() {
    let clients = clients_from(&[
        "clid=1 cid=1 client_database_id=11 client_type=0 client_nickname=a",
        "clid=2 cid=1 client_database_id=22 client_type=0 client_nickname=b",
    ]);
    let first = resolve_database_id(&clients, 1).unwrap();
    let second = resolve_database_id(&clients, 1).unwrap();
    assert_eq!(first, second);
    assert_eq!(first, 11);
}

#[test]
fn duplicate_needs_two_records_with_the_id() {
    let one = clients_from(&[
        "clid=1 cid=1 client_database_id=7 client_type=0 client_nickname=a",
        "clid=2 cid=1 client_database_id=8 client_type=0 client_nickname=b",
    ]);
    assert!(!check_self_duplicate(&one, 7));
    let two = clients_from(&[
        "clid=1 cid=1 client_database_id=7 client_type=0 client_nickname=a",
        "clid=2 cid=1 client_database_id=8 client_type=0 client_nickname=b",
        "clid=3 cid=2 client_database_id=7 client_type=0 client_nickname=c",
    ]);
    assert!(check_self_duplicate(&two, 7));
    assert!(!check_self_duplicate(&two, 8));
    let none: Vec<Client> = Vec::new();
    assert!(!check_self_duplicate(&none, 7));
}

#[test]
fn find_channel_by_exact_name_first_match_wins() {
    let reply = "cid=1 pid=0 channel_name=Lobby total_clients=3|cid=2 pid=0 channel_name=AFK total_clients=0|cid=3 pid=0 channel_name=AFK total_clients=1\nerror id=0 msg=ok\r\n";
    let channels: Vec<Channel> =
        decode_status_with_result(reply.to_string()).unwrap().unwrap();
    assert_eq!(find_channel_id(&channels, "AFK").unwrap(), 2);
    assert_eq!(find_channel_id(&channels, "Lobby").unwrap(), 1);
    let e = find_channel_id(&channels, "afk").unwrap_err();
    assert_eq!(e.code(), -2);
    assert_eq!(e.message().as_str(), "Channel not found: afk");
}
