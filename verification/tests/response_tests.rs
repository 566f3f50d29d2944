use nu_plugin_http_serve::datum::Datum;
use nu_plugin_http_serve::request::IncomingRequest;
use nu_plugin_http_serve::response::{
    content_type_header, failure, fits_header, handle_request, infer_content_type, join_chunks,
    join_items, pipeline_data_to_response, respond, ByteSource, Header, OutboundResult, Response,
};

fn text(s: &str) -> Datum {
    Datum::Text(s.to_string())
}

fn content_type(value: &str) -> Vec<Header> {
    vec![Header { field: "Content-Type".to_string(), value: value.to_string() }]
}

fn value(value: Datum) -> OutboundResult {
    OutboundResult::Value { value, content_type: None }
}

fn get(path: &str) -> IncomingRequest {
    IncomingRequest::new(
        "GET".to_string(),
        path.to_string(),
        vec![("Host".to_string(), "localhost".to_string())],
        Some("127.0.0.1:40000".to_string()),
    )
}

fn field<'a>(record: &'a Datum, name: &str) -> Option<&'a Datum> {
    match record {
        Datum::Record(fields) => fields.iter().find(|(k, _)| k == name).map(|(_, v)| v),
        _ => None,
    }
}

#[test]
fn content_type_header_has_name_and_value() {
    assert_eq!(
        content_type_header("application/json"),
        Header { field: "Content-Type".to_string(), value: "application/json".to_string() }
    );
}

#[test]
fn named_content_type_wins() {
    assert_eq!(infer_content_type(&Some("text/html".to_string()), Some("application/json")), "text/html");
    assert_eq!(infer_content_type(&Some("text/html".to_string()), None), "text/html");
    assert_eq!(infer_content_type(&None, Some("application/json")), "application/json");
    assert_eq!(infer_content_type(&None, None), "text/plain; charset=utf-8");
}

#[test]
fn empty_result_gives_204() {
    let response = pipeline_data_to_response(OutboundResult::Empty);
    assert_eq!(response, Response { status: 204, headers: vec![], body: vec![] });
    let response = pipeline_data_to_response(value(Datum::Nothing));
    assert_eq!(response, Response { status: 204, headers: vec![], body: vec![] });
    let response = pipeline_data_to_response(OutboundResult::Value {
        value: Datum::Nothing,
        content_type: Some("text/html".to_string()),
    });
    assert_eq!(response, Response { status: 204, headers: vec![], body: vec![] });
}

#[test]
fn scalar_gives_text_plain() {
    let response = pipeline_data_to_response(value(text("Hello, World!")));
    assert_eq!(response.status, 200);
    assert_eq!(response.headers, content_type("text/plain; charset=utf-8"));
    assert_eq!(response.body, b"Hello, World!".to_vec());
    let response = pipeline_data_to_response(value(Datum::Int(12)));
    assert_eq!(response.headers, content_type("text/plain; charset=utf-8"));
    assert_eq!(response.body, b"12".to_vec());
    let response =
        pipeline_data_to_response(value(Datum::Binary { bytes: vec![1, 2, 3], debug: String::new() }));
    assert_eq!(response.body, vec![1, 2, 3]);
}

#[test]
fn record_and_list_give_json() {
    let response = pipeline_data_to_response(value(Datum::Record(vec![
        ("status".to_string(), text("ok")),
        ("method".to_string(), text("GET")),
    ])));
    assert_eq!(response.status, 200);
    assert_eq!(response.headers, content_type("application/json"));
    assert_eq!(response.body, br#"{"status":"ok","method":"GET"}"#.to_vec());
    let response = pipeline_data_to_response(value(Datum::List(vec![Datum::Int(1), Datum::Int(2)])));
    assert_eq!(response.headers, content_type("application/json"));
    assert_eq!(response.body, b"[1,2]".to_vec());
}

#[test]
fn named_type_overrides_each_default() {
    let html = Some("text/html".to_string());
    let response = pipeline_data_to_response(OutboundResult::Value {
        value: text("<p>hi</p>"),
        content_type: html.clone(),
    });
    assert_eq!(response.headers, content_type("text/html"));
    let response = pipeline_data_to_response(OutboundResult::Value {
        value: Datum::Record(vec![]),
        content_type: html.clone(),
    });
    assert_eq!(response.headers, content_type("text/html"));
    assert_eq!(response.body, b"{}".to_vec());
    let response = pipeline_data_to_response(OutboundResult::ListStream {
        items: vec![],
        content_type: html.clone(),
    });
    assert_eq!(response.headers, content_type("text/html"));
    let response = pipeline_data_to_response(OutboundResult::ByteStream {
        source: ByteSource::Chunks(vec![]),
        content_type: html,
    });
    assert_eq!(response.headers, content_type("text/html"));
}

#[test]
fn item_stream_gives_one_json_text_per_line() {
    let response = pipeline_data_to_response(OutboundResult::ListStream {
        items: vec![
            Datum::Record(vec![("a".to_string(), Datum::Int(1))]),
            text("x"),
            Datum::Int(3),
        ],
        content_type: None,
    });
    assert_eq!(response.status, 200);
    assert_eq!(response.headers, content_type("application/json"));
    assert_eq!(response.body, b"{\"a\":1}\n\"x\"\n3".to_vec());
    assert_eq!(join_items(&vec![]), Vec::<u8>::new());
    assert_eq!(join_items(&vec![Datum::Int(1)]), b"1".to_vec());
}

#[test]
fn byte_stream_gives_chunks_joined() {
    let response = pipeline_data_to_response(OutboundResult::ByteStream {
        source: ByteSource::Chunks(vec![vec![1, 2], vec![], vec![3]]),
        content_type: None,
    });
    assert_eq!(response.status, 200);
    assert_eq!(response.headers, content_type("application/octet-stream"));
    assert_eq!(response.body, vec![1, 2, 3]);
    assert_eq!(join_chunks(&vec![]), Vec::<u8>::new());
}

#[test]
fn failed_byte_stream_gives_500() {
    let response = pipeline_data_to_response(OutboundResult::ByteStream {
        source: ByteSource::Failed("broken pipe".to_string()),
        content_type: Some("image/png".to_string()),
    });
    assert_eq!(response.status, 500);
    assert_eq!(response.headers, content_type("text/plain; charset=utf-8"));
    assert_eq!(response.body, b"Error: broken pipe".to_vec());
    let response = pipeline_data_to_response(OutboundResult::ByteStream {
        source: ByteSource::Unavailable,
        content_type: None,
    });
    assert_eq!(response.status, 500);
    assert_eq!(response.body, b"Error: ByteStream has no reader".to_vec());
}

#[test]
fn failure_gives_500_with_message() {
    let expected = Response {
        status: 500,
        headers: content_type("text/plain; charset=utf-8"),
        body: b"Error: boom".to_vec(),
    };
    assert_eq!(failure("boom"), expected);
    assert_eq!(
        pipeline_data_to_response(OutboundResult::Failure { message: "boom".to_string() }),
        expected
    );
    assert_eq!(respond(Err("boom".to_string())), expected);
    assert_eq!(respond(Ok(OutboundResult::Empty)).status, 204);
}

#[test]
fn hello_world_scenario() {
    let response = handle_request(&get("/"), |_request| Ok(value(text("Hello, World!"))));
    assert_eq!(response.status, 200);
    assert_eq!(response.headers, content_type("text/plain; charset=utf-8"));
    assert_eq!(response.body, b"Hello, World!".to_vec());
}

#[test]
fn echoed_method_scenario() {
    let response = handle_request(&get("/"), |request| {
        let method = match field(&request, "method") {
            Some(Datum::Text(m)) => m.clone(),
            _ => String::new(),
        };
        Ok(value(Datum::Record(vec![
            ("status".to_string(), text("ok")),
            ("method".to_string(), Datum::Text(method)),
        ])))
    });
    assert_eq!(response.status, 200);
    assert_eq!(response.headers, content_type("application/json"));
    let parsed: serde_json::Value = serde_json::from_slice(&response.body).unwrap();
    assert_eq!(parsed["status"], serde_json::Value::String("ok".to_string()));
    assert_eq!(parsed["method"], serde_json::Value::String("GET".to_string()));
}

#[test]
fn no_value_scenario() {
    let response = handle_request(&get("/anything"), |_request| Ok(OutboundResult::Empty));
    assert_eq!(response, Response { status: 204, headers: vec![], body: vec![] });
}

#[test]
fn echoed_query_scenario() {
    let response = handle_request(&get("/test/path?x=1&y=2"), |request| {
        let query = match request {
            Datum::Record(fields) => fields.into_iter().find(|(k, _)| k == "query").map(|(_, v)| v),
            _ => None,
        };
        Ok(value(query.unwrap_or(Datum::Nothing)))
    });
    assert_eq!(response.status, 200);
    assert_eq!(response.body, br#"{"x":"1","y":"2"}"#.to_vec());
}

#[test]
fn handler_failure_scenario() {
    let response = handle_request(&get("/"), |_request| Err("closure failed".to_string()));
    assert_eq!(response.status, 500);
    assert_eq!(response.body, b"Error: closure failed".to_vec());
}

#[test]
fn each_response_carries_its_own_path() {
    let paths: Vec<String> = (0..16).map(|i| format!("/item/{}", i)).collect();
    let responses: Vec<Response> = paths
        .iter()
        .map(|path| {
            handle_request(&get(path), |request| {
                let path = match field(&request, "path") {
                    Some(Datum::Text(p)) => p.clone(),
                    _ => String::new(),
                };
                Ok(value(Datum::Text(path)))
            })
        })
        .collect();
    for (path, response) in paths.iter().zip(responses.iter()) {
        assert_eq!(response.status, 200);
        assert_eq!(response.body, path.as_bytes().to_vec());
    }
}

#[test]
fn nothing_gives_204_whatever_type_is_named() {
    let named = Some("text/plain; charset=\u{fc}tf-8".to_string());
    let result = OutboundResult::Value { value: Datum::Nothing, content_type: named.clone() };
    assert!(fits_header(&result));
    assert_eq!(
        pipeline_data_to_response(result),
        Response { status: 204, headers: vec![], body: vec![] }
    );
    let response = handle_request(&get("/"), |_request| {
        Ok(OutboundResult::Value { value: Datum::Nothing, content_type: named })
    });
    assert_eq!(response, Response { status: 204, headers: vec![], body: vec![] });
}

#[test]
fn unreadable_stream_gives_500_whatever_type_is_named() {
    let named = Some("\u{e9}".to_string());
    let failed = OutboundResult::ByteStream {
        source: ByteSource::Failed("reset".to_string()),
        content_type: named.clone(),
    };
    assert!(fits_header(&failed));
    let response = pipeline_data_to_response(failed);
    assert_eq!(response.status, 500);
    assert_eq!(response.headers, content_type("text/plain; charset=utf-8"));
    assert_eq!(response.body, b"Error: reset".to_vec());
    let unavailable =
        OutboundResult::ByteStream { source: ByteSource::Unavailable, content_type: named };
    assert!(fits_header(&unavailable));
    let response = respond(Ok(unavailable));
    assert_eq!(response.status, 500);
    assert_eq!(response.body, b"Error: ByteStream has no reader".to_vec());
}

#[test]
fn header_needs_an_ascii_content_type() {
    let odd = Some("text/\u{e9}".to_string());
    let plain = Some("text/html".to_string());
    assert!(fits_header(&OutboundResult::Empty));
    assert!(fits_header(&OutboundResult::Failure { message: "m".to_string() }));
    assert!(fits_header(&value(text("x"))));
    assert!(fits_header(&OutboundResult::Value { value: text("x"), content_type: plain.clone() }));
    assert!(!fits_header(&OutboundResult::Value { value: text("x"), content_type: odd.clone() }));
    assert!(!fits_header(&OutboundResult::Value {
        value: Datum::Record(vec![]),
        content_type: odd.clone()
    }));
    assert!(fits_header(&OutboundResult::ListStream { items: vec![], content_type: plain.clone() }));
    assert!(!fits_header(&OutboundResult::ListStream { items: vec![], content_type: odd.clone() }));
    assert!(fits_header(&OutboundResult::ByteStream {
        source: ByteSource::Chunks(vec![]),
        content_type: plain
    }));
    assert!(!fits_header(&OutboundResult::ByteStream {
        source: ByteSource::Chunks(vec![]),
        content_type: odd
    }));
}
