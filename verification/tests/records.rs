use query_monitor::datastructures::Channel;
use query_monitor::datastructures::Client;
use query_monitor::datastructures::ClientEdit;
use query_monitor::datastructures::ClientVariable;
use query_monitor::datastructures::ConnectInfo;
use query_monitor::datastructures::FromQueryString;
use query_monitor::datastructures::QueryError;
use query_monitor::datastructures::QueryStatus;
use query_monitor::datastructures::WhoAmI;

const TEST_STRING: &str = "clid=8 cid=1 client_database_id=1 client_nickname=serveradmin client_type=1 client_unique_identifier=serveradmin";

#[test]
fn test() {
    let result = Client::from_query(TEST_STRING).unwrap();
    assert_eq!(result.client_id(), 8);
    assert_eq!(result.channel_id(), 1);
    assert_eq!(result.client_database_id(), 1);
    assert_eq!(result.client_nickname(), "serveradmin".to_string());
    assert_eq!(result.client_type(), 1);
    assert_eq!(result.client_unique_identifier(), "serveradmin".to_string());
}

#[test]
fn client_unique_identifier_falls_back_to_database_id() {
    let result =
        Client::from_query("clid=8 cid=1 client_database_id=37 client_nickname=x client_type=0")
            .unwrap();
    assert_eq!(result.client_unique_identifier(), "37".to_string());
}

#[test]
fn client_missing_field_is_parse_error() {
    let e = Client::from_query("clid=8 cid=1 client_nickname=x client_type=0").unwrap_err();
    assert_eq!(e.code(), -6);
}

#[test]
fn client_nickname_is_unescaped() {
    let result = Client::from_query(
        "clid=1 cid=1 client_database_id=2 client_type=0 client_nickname=a\\sb\\\\c\\/d",
    )
    .unwrap();
    assert_eq!(result.client_nickname(), "a b\\c/d");
}

#[test]
fn whoami_parses_ids() {
    let w = WhoAmI::from_query("clid=42 cid=7 virtualserver_status=online").unwrap();
    assert_eq!(w.client_id(), 42);
    assert_eq!(w.channel_id(), 7);
}

#[test]
fn whoami_rejects_bad_number() {
    let e = WhoAmI::from_query("clid=abc cid=7").unwrap_err();
    assert_eq!(e.code(), -6);
}

#[test]
fn signed_and_extreme_numbers_parse() {
    let w = WhoAmI::from_query("clid=-5 cid=+6").unwrap();
    assert_eq!(w.client_id(), -5);
    assert_eq!(w.channel_id(), 6);
    let w2 = WhoAmI::from_query("clid=9223372036854775807 cid=-9223372036854775808").unwrap();
    assert_eq!(w2.client_id(), i64::MAX);
    assert_eq!(w2.channel_id(), i64::MIN);
}

#[test]
fn overflowing_number_is_rejected() {
    let e = WhoAmI::from_query("clid=9223372036854775808 cid=1").unwrap_err();
    assert_eq!(e.code(), -6);
}

#[test]
fn channel_parses_with_and_without_order() {
    let c = Channel::from_query("cid=9 pid=2 channel_order=3 channel_name=Main total_clients=4")
        .unwrap();
    assert_eq!(c.cid(), 9);
    assert_eq!(c.pid(), 2);
    assert_eq!(c.channel_order(), 3);
    assert_eq!(c.channel_name(), "Main");
    assert_eq!(c.total_clients(), 4);
    let d = Channel::from_query("cid=1 pid=0 channel_name=Lobby total_clients=3").unwrap();
    assert_eq!(d.channel_order(), 0);
}

#[test]
fn connect_info_parses_port() {
    let c = ConnectInfo::from_query("ip=127.0.0.1 port=25639").unwrap();
    assert_eq!(c.ip(), "127.0.0.1");
    assert_eq!(c.port(), 25639);
}

#[test]
fn connect_info_rejects_port_out_of_range() {
    let e = ConnectInfo::from_query("ip=127.0.0.1 port=65536").unwrap_err();
    assert_eq!(e.code(), -6);
    let e2 = ConnectInfo::from_query("ip=127.0.0.1 port=-1").unwrap_err();
    assert_eq!(e2.code(), -6);
}

#[test]
fn client_variable_and_edit_round() {
    let v = ClientVariable::from_query("clid=3 client_description=away\\sfor\\slunch").unwrap();
    assert_eq!(v.client_id(), 3);
    assert_eq!(v.description(), "away for lunch");
    let edit = v.into_edit(99);
    assert_eq!(edit.client_database_id(), 99);
    assert_eq!(edit.description(), "away for lunch");
    let fresh = ClientEdit::new(1, "text".to_string());
    assert_eq!(fresh.client_database_id(), 1);
    assert_eq!(fresh.description(), "text");
}

#[test]
fn status_line_parses() {
    let s = QueryStatus::try_from_line("error id=0 msg=ok").unwrap();
    assert_eq!(s.id(), 0);
    assert_eq!(s.msg().as_str(), "ok");
    let s2 = QueryStatus::try_from_line("  error id=1794 msg=not\\sconnected").unwrap();
    assert_eq!(s2.id(), 1794);
    assert_eq!(s2.msg().as_str(), "not connected");
}

#[test]
fn status_line_without_error_marker_cannot_split() {
    let e = QueryStatus::try_from_line("clid=1 cid=2").unwrap_err();
    assert_eq!(e.code(), -114514);
    assert_eq!(e.message().as_str(), "Split error: clid=1 cid=2");
}

#[test]
fn status_line_splits_at_first_error_occurrence() {
    let s = QueryStatus::try_from_line("xx error id=3 msg=hi").unwrap();
    assert_eq!(s.id(), 3);
    assert_eq!(s.msg().as_str(), "hi");
    let s2 = QueryStatus::try_from_line("error error id=2 msg=x").unwrap();
    assert_eq!(s2.id(), 2);
    assert_eq!(s2.msg().as_str(), "x");
}

#[test]
fn status_line_with_bad_id_is_parse_error() {
    let e = QueryStatus::try_from_line("error id=zero msg=ok").unwrap_err();
    assert_eq!(e.code(), -6);
}

#[test]
fn status_default_and_into_result() {
    let s = QueryStatus::default();
    assert_eq!(s.id(), 0);
    assert_eq!(s.msg().as_str(), "ok");
    assert_eq!(s.into_result(5u8).unwrap(), 5u8);
    let bad = QueryStatus::try_from_line("error id=1 msg=denied").unwrap();
    let e = bad.into_result(5u8).unwrap_err();
    assert_eq!(e.code(), 1);
    assert_eq!(e.message().as_str(), "denied");
}

#[test]
fn status_into_err_keeps_code_and_message() {
    let s = QueryStatus::try_from_line("error id=512 msg=busy").unwrap();
    let e = s.into_err();
    assert_eq!(e.code(), 512);
    assert_eq!(e.message().as_str(), "busy");
}

#[test]
fn error_constructors_carry_their_codes() {
    assert_eq!(QueryError::static_empty_response().code(), -1);
    assert_eq!(QueryError::channel_not_found("x").code(), -2);
    assert_eq!(QueryError::database_id_error().code(), -3);
    assert_eq!(QueryError::status_not_found().code(), -4);
    assert_eq!(QueryError::split_error("x").code(), -5);
    assert_eq!(QueryError::parse_error("m".to_string()).code(), -6);
    assert_eq!(QueryError::result_not_found("p").code(), -7);
    assert_eq!(QueryError::query_error("p").code(), -8);
    assert_eq!(QueryError::transport_error("io".to_string()).code(), -114514);
}

#[test]
fn payload_bearing_errors_quote_the_payload() {
    let e = QueryError::result_not_found("a b\\c");
    assert_eq!(e.message().as_str(), "Result not found: \"a b\\\\c\"");
    let q = QueryError::query_error("p");
    assert_eq!(q.message().as_str(), "Query client error: \"p\"");
}

#[test]
fn error_describe_is_message_and_code() {
    let e = QueryError::parse_error("broken".to_string());
    assert_eq!(e.describe(), "broken(-6)".to_string());
    assert_eq!(QueryError::database_id_error().message().as_str(), "Can't get self database_id");
}
