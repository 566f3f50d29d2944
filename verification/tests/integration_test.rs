use nu_plugin_http_serve::address::{bind_target, BindTarget};
use nu_plugin_http_serve::datum::Datum;
use nu_plugin_http_serve::response::{handle_request, OutboundResult};
use nu_plugin_http_serve::wire::{
    bad_request, parse_request, response_bytes, ParseError,
};

fn field(record: &Datum, name: &str) -> Datum {
    match record {
        Datum::Record(fields) => {
            for (key, value) in fields {
                if key == name {
                    return match value {
                        Datum::Text(t) => Datum::Text(t.clone()),
                        _ => Datum::Nothing,
                    };
                }
            }
            Datum::Nothing
        }
        _ => Datum::Nothing,
    }
}

/// One exchange with a server bound to `addr`: the bytes of the request in,
/// the text of the response out.
fn exchange(
    addr: &str,
    path: &str,
    handler: impl FnOnce(Datum) -> Result<OutboundResult, String>,
) -> String {
    let peer = match bind_target(addr, "/tmp") {
        BindTarget::Tcp { .. } => Some("127.0.0.1:54321".to_string()),
        BindTarget::UnixPath { .. } => None,
    };
    let raw = format!("GET {} HTTP/1.1\r\nHost: localhost\r\nConnection: close\r\n\r\n", path);
    let request = parse_request(raw.as_bytes(), peer).expect("Failed to send request");
    let response = handle_request(&request, handler);
    String::from_utf8_lossy(&response_bytes(&response)).to_string()
}

fn scalar(text: &str) -> Result<OutboundResult, String> {
    Ok(OutboundResult::Value { value: Datum::Text(text.to_string()), content_type: None })
}

#[test]
fn test_tcp_basic_request() {
    let response = exchange("127.0.0.1:18765", "/", |_req| scalar("Hello, World!"));
    assert!(response.contains("HTTP/1.1 200"));
    assert!(response.contains("Hello, World!"));
}

#[test]
fn test_tcp_echo_method() {
    let response = exchange("127.0.0.1:18766", "/test", |req| {
        Ok(OutboundResult::Value { value: field(&req, "method"), content_type: None })
    });
    assert!(response.contains("HTTP/1.1 200"));
    assert!(response.contains("GET"));
}

#[test]
fn test_tcp_echo_path() {
    let response = exchange("127.0.0.1:18767", "/test/path", |req| {
        Ok(OutboundResult::Value { value: field(&req, "path"), content_type: None })
    });
    assert!(response.contains("HTTP/1.1 200"));
    assert!(response.contains("/test/path"));
}

#[test]
fn test_unix_socket_basic_request() {
    let response = exchange("/tmp/nu_http_test.sock", "/", |req| {
        assert_eq!(field(&req, "remote_addr"), Datum::Nothing);
        scalar("Unix Socket Works!")
    });
    assert!(response.contains("HTTP/1.1 200"));
    assert!(response.contains("Unix Socket Works!"));
}

#[test]
fn test_json_response() {
    let response = exchange("127.0.0.1:18768", "/", |req| {
        Ok(OutboundResult::Value {
            value: Datum::Record(vec![
                ("status".to_string(), Datum::Text("ok".to_string())),
                ("method".to_string(), field(&req, "method")),
            ]),
            content_type: None,
        })
    });
    assert!(response.contains("HTTP/1.1 200"));
    assert!(response.contains("application/json"));
    assert!(response.contains(r#""status""#));
    assert!(response.contains(r#""method""#));
}

#[test]
fn response_on_the_wire_is_exact() {
    let response = exchange("127.0.0.1:18765", "/", |_req| scalar("Hello, World!"));
    assert_eq!(
        response,
        "HTTP/1.1 200 OK\r\nContent-Type: text/plain; charset=utf-8\r\nContent-Length: 13\r\n\r\nHello, World!"
    );
    let response = exchange(":0", "/", |_req| Ok(OutboundResult::Empty));
    assert_eq!(response, "HTTP/1.1 204 No Content\r\nContent-Length: 0\r\n\r\n");
    let response = exchange(":0", "/", |_req| Err("no".to_string()));
    assert_eq!(
        response,
        "HTTP/1.1 500 Internal Server Error\r\nContent-Type: text/plain; charset=utf-8\r\nContent-Length: 9\r\n\r\nError: no"
    );
}

#[test]
fn request_head_is_read() {
    let raw = b"POST /a/b?x=1 HTTP/1.0\nHost:  example.org \t\r\nX-Empty:\r\nx-k: a: b\r\n\r\nbody: not a header\r\n";
    let request = parse_request(raw, None).unwrap();
    assert_eq!(request.method(), "POST");
    assert_eq!(request.path(), "/a/b?x=1");
    assert_eq!(
        request.headers(),
        &vec![
            ("Host".to_string(), "example.org".to_string()),
            ("X-Empty".to_string(), "".to_string()),
            ("x-k".to_string(), "a: b".to_string()),
        ]
    );
    assert_eq!(request.query(), &vec![("x".to_string(), "1".to_string())]);
    assert_eq!(request.remote_addr(), &None);
}

#[test]
fn malformed_heads_are_refused() {
    assert_eq!(parse_request(b"", None), Err(ParseError::Incomplete));
    assert_eq!(parse_request(b"GET / HTTP/1.1", None), Err(ParseError::Incomplete));
    assert_eq!(parse_request(b"GET / HTTP/1.1\r\n", None), Err(ParseError::Incomplete));
    assert_eq!(parse_request(b"GET / HTTP/1.1\r\nHost: x\r\n", None), Err(ParseError::Incomplete));
    assert_eq!(parse_request(b"GET\r\n\r\n", None), Err(ParseError::BadRequestLine));
    assert_eq!(parse_request(b"GET /\r\n\r\n", None), Err(ParseError::BadRequestLine));
    assert_eq!(parse_request(b" / HTTP/1.1\r\n\r\n", None), Err(ParseError::BadRequestLine));
    assert_eq!(parse_request(b"GET  HTTP/1.1\r\n\r\n", None), Err(ParseError::BadRequestLine));
    assert_eq!(parse_request(b"GET / HTTP/2\r\n\r\n", None), Err(ParseError::BadVersion));
    assert_eq!(parse_request(b"GET / HTTP/1.1 x\r\n\r\n", None), Err(ParseError::BadVersion));
    assert_eq!(parse_request(b"GET / HTTP/1.1\r\nno colon\r\n\r\n", None), Err(ParseError::BadHeader));
    assert_eq!(parse_request(b"GET / HTTP/1.1\r\n: v\r\n\r\n", None), Err(ParseError::BadHeader));
}

#[test]
fn bytes_are_read_one_character_each() {
    let raw = b"GET /caf\xe9 HTTP/1.1\r\n\r\n";
    let request = parse_request(raw, None).unwrap();
    assert_eq!(request.path(), "/caf\u{e9}");
}

#[test]
fn unreadable_request_gets_400() {
    let response = bad_request(ParseError::BadHeader);
    assert_eq!(response.status, 400);
    assert_eq!(response.body, b"Bad Request: malformed header".to_vec());
    let text = String::from_utf8(response_bytes(&response)).unwrap();
    assert!(text.starts_with("HTTP/1.1 400 Bad Request\r\n"));
    assert_eq!(bad_request(ParseError::Incomplete).body, b"Bad Request: incomplete head".to_vec());
    assert_eq!(
        bad_request(ParseError::BadRequestLine).body,
        b"Bad Request: malformed request line".to_vec()
    );
    assert_eq!(bad_request(ParseError::BadVersion).body, b"Bad Request: unsupported version".to_vec());
}
