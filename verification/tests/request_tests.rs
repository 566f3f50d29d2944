use nu_plugin_http_serve::datum::Datum;
use nu_plugin_http_serve::request::{parse_query, request_to_value, IncomingRequest};

fn pair(k: &str, v: &str) -> (String, String) {
    (k.to_string(), v.to_string())
}

fn text(s: &str) -> Datum {
    Datum::Text(s.to_string())
}

#[test]
fn query_of_two_parameters() {
    assert_eq!(parse_query("/test/path?x=1&y=2"), vec![pair("x", "1"), pair("y", "2")]);
}

#[test]
fn no_query_string_gives_no_parameters() {
    assert_eq!(parse_query("/test/path"), vec![]);
    assert_eq!(parse_query("/"), vec![]);
    assert_eq!(parse_query(""), vec![]);
    assert_eq!(parse_query("/path?"), vec![]);
}

#[test]
fn piece_without_equals_is_dropped() {
    assert_eq!(parse_query("/p?flag&x=1&&y"), vec![pair("x", "1")]);
}

#[test]
fn value_is_cut_at_first_equals_only() {
    assert_eq!(parse_query("/p?a=b=c&=v&k="), vec![pair("a", "b=c"), pair("", "v"), pair("k", "")]);
}

#[test]
fn nothing_is_percent_decoded() {
    assert_eq!(parse_query("/p?q=a%20b+c"), vec![pair("q", "a%20b+c")]);
}

#[test]
fn later_value_replaces_earlier_one() {
    assert_eq!(parse_query("/p?x=1&y=2&x=3"), vec![pair("x", "3"), pair("y", "2")]);
}

#[test]
fn query_starts_at_first_question_mark() {
    assert_eq!(parse_query("/p?a=1?b=2"), vec![pair("a", "1?b=2")]);
}

#[test]
fn query_with_non_ascii_text() {
    assert_eq!(parse_query("/p?ключ=значение&k=✓"), vec![pair("ключ", "значение"), pair("k", "✓")]);
}

#[test]
fn request_keeps_what_it_was_given() {
    let request = IncomingRequest::new(
        "GET".to_string(),
        "/test/path?x=1&y=2".to_string(),
        vec![pair("Host", "localhost"), pair("X-Tag", "a"), pair("X-Tag", "b")],
        Some("127.0.0.1:50000".to_string()),
    );
    assert_eq!(request.method(), "GET");
    assert_eq!(request.path(), "/test/path?x=1&y=2");
    assert_eq!(request.headers(), &vec![pair("Host", "localhost"), pair("X-Tag", "a"), pair("X-Tag", "b")]);
    assert_eq!(request.query(), &vec![pair("x", "1"), pair("y", "2")]);
    assert_eq!(request.remote_addr(), &Some("127.0.0.1:50000".to_string()));
}

#[test]
fn request_value_over_tcp() {
    let request = IncomingRequest::new(
        "GET".to_string(),
        "/test/path?x=1&y=2".to_string(),
        vec![pair("Host", "localhost"), pair("Connection", "close")],
        Some("127.0.0.1:50000".to_string()),
    );
    let expected = Datum::Record(vec![
        ("method".to_string(), text("GET")),
        ("path".to_string(), text("/test/path?x=1&y=2")),
        (
            "headers".to_string(),
            Datum::Record(vec![
                ("Host".to_string(), text("localhost")),
                ("Connection".to_string(), text("close")),
            ]),
        ),
        (
            "query".to_string(),
            Datum::Record(vec![("x".to_string(), text("1")), ("y".to_string(), text("2"))]),
        ),
        ("remote_addr".to_string(), text("127.0.0.1:50000")),
    ]);
    assert_eq!(request_to_value(&request), expected);
}

#[test]
fn request_value_over_unix_socket_has_no_peer() {
    let request = IncomingRequest::new("POST".to_string(), "/".to_string(), vec![], None);
    let expected = Datum::Record(vec![
        ("method".to_string(), text("POST")),
        ("path".to_string(), text("/")),
        ("headers".to_string(), Datum::Record(vec![])),
        ("query".to_string(), Datum::Record(vec![])),
    ]);
    assert_eq!(request_to_value(&request), expected);
}

#[test]
fn header_names_keep_their_case_and_repeats() {
    let request = IncomingRequest::new(
        "GET".to_string(),
        "/".to_string(),
        vec![pair("x-a", "1"), pair("X-A", "2"), pair("x-a", "3")],
        None,
    );
    match request_to_value(&request) {
        Datum::Record(fields) => {
            assert_eq!(
                fields[2],
                (
                    "headers".to_string(),
                    Datum::Record(vec![
                        ("x-a".to_string(), text("1")),
                        ("X-A".to_string(), text("2")),
                        ("x-a".to_string(), text("3")),
                    ])
                )
            );
        }
        other => panic!("not a record: {:?}", other),
    }
}
