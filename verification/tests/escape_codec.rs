use query_monitor::escape::escape;
use query_monitor::escape::unescape;

#[test]
fn escape_replaces_backslash_space_slash() {
    assert_eq!(escape("a b/c\\d"), "a\\sb\\/c\\\\d".to_string());
    assert_eq!(escape(""), "".to_string());
    assert_eq!(escape("plain"), "plain".to_string());
}

#[test]
fn escape_is_order_sensitive() {
    // The backslash inserted for the space must not be escaped again.
    assert_eq!(escape(" "), "\\s".to_string());
    assert_eq!(escape("\\s"), "\\\\s".to_string());
    assert_eq!(escape("\\ "), "\\\\\\s".to_string());
}

#[test]
fn unescape_reverses_the_sequences() {
    assert_eq!(unescape("a\\sb\\/c\\\\d"), "a b/c\\d".to_string());
    assert_eq!(unescape("not\\sconnected"), "not connected".to_string());
    assert_eq!(unescape("plain"), "plain".to_string());
}

#[test]
fn unescape_escape_round_trips() {
    let samples = [
        "",
        " ",
        "\\",
        "/",
        "\\s",
        "a b/c\\d",
        "already\\sescaped",
        "\\\\//  \\s\\s",
        "auth apikey=x/y\\z",
    ];
    for s in samples {
        assert_eq!(unescape(&escape(s)), s.to_string());
    }
}

#[test]
fn lone_trailing_backslash_survives_unescape() {
    assert_eq!(unescape("x\\"), "x\\".to_string());
}

#[test]
fn escape_equals_the_replace_chain() {
    let samples = ["", "a b/c\\d", "\\s", " /", "plain"];
    for s in samples {
        let chained = s.replace('\\', "\\\\").replace(' ', "\\s").replace('/', "\\/");
        assert_eq!(escape(s), chained);
    }
}
