use rexprs::bridge::{convert_to_hyper_response, is_header_value, JsRequest, JsResponse, Res, SendError};
use rexprs::response::{
    bad_request, create_error, create_error_response, error_body, internal_server_error, json_error,
    not_found, timeout_error,
};
use rexprs::strmap::StrMap;

fn json_ct() -> Vec<(String, String)> {
    vec![("content-type".to_string(), "application/json".to_string())]
}

#[test]
fn named_error_constructors() {
    let r = bad_request("bad input");
    assert_eq!((r.status, r.body.as_str()), (400, "{\"error\":\"bad input\"}"));
    assert_eq!(r.headers, json_ct());
    let r = not_found("nope");
    assert_eq!((r.status, r.body.as_str()), (404, "{\"error\":\"nope\"}"));
    let r = timeout_error();
    assert_eq!((r.status, r.body.as_str()), (408, "{\"error\":\"Request timed out\"}"));
    let r = internal_server_error();
    assert_eq!((r.status, r.body.as_str()), (500, "{\"error\":\"Internal server error\"}"));
}

#[test]
fn error_message_is_escaped_as_json() {
    let r = create_error_response(400, "say \"hi\"\n\\");
    assert_eq!(r.body, "{\"error\":\"say \\\"hi\\\"\\n\\\\\"}");
}

#[test]
fn invalid_status_falls_back_to_fixed_500() {
    let r = create_error(42, "x");
    assert_eq!(r.status, 500);
    assert_eq!(r.body, "{\"error\": \"Internal Server Error\"}");
    assert_eq!(r.headers, json_ct());
    let r = create_error_response(1000, "x");
    assert_eq!(r.status, 500);
    assert_eq!(r.body, "{\"error\": \"Internal server error\"}");
}

#[test]
fn error_body_and_json_error() {
    assert_eq!(error_body("\"m\""), "{\"error\":\"m\"}");
    let r = json_error(42, "\"q\"", "fb");
    assert_eq!((r.status, r.body.as_str()), (500, "fb"));
    let r = json_error(404, "\"q\"", "fb");
    assert_eq!((r.status, r.body.as_str()), (404, "{\"error\":\"q\"}"));
}

#[test]
fn default_js_response() {
    let d = JsResponse::default();
    assert_eq!(d.status_code, Some(200));
    assert_eq!(d.body, None);
    assert_eq!(d.headers.get("Content-Type"), Some("application/json".to_string()));
    let r = convert_to_hyper_response(d);
    assert_eq!(r.status, 200);
    assert_eq!(r.body, "");
    assert_eq!(r.headers, vec![("Content-Type".to_string(), "application/json".to_string())]);
}

#[test]
fn convert_status_and_headers() {
    let mut headers = StrMap::new();
    headers.insert("x-ok".to_string(), "1".to_string());
    headers.insert("bad name".to_string(), "2".to_string());
    headers.insert("".to_string(), "3".to_string());
    let r = convert_to_hyper_response(JsResponse { status_code: Some(201), headers, body: Some("made".to_string()) });
    assert_eq!(r.status, 201);
    assert_eq!(r.body, "made");
    assert_eq!(r.headers, vec![("x-ok".to_string(), "1".to_string())]);
    let r = convert_to_hyper_response(JsResponse { status_code: Some(42), headers: StrMap::new(), body: None });
    assert_eq!(r.status, 500);
    let r = convert_to_hyper_response(JsResponse { status_code: None, headers: StrMap::new(), body: None });
    assert_eq!(r.status, 500);
}

#[test]
fn convert_invalid_header_value_falls_back() {
    let mut headers = StrMap::new();
    headers.insert("x-a".to_string(), "line\nbreak".to_string());
    let r = convert_to_hyper_response(JsResponse { status_code: Some(200), headers, body: Some("b".to_string()) });
    assert_eq!(r.status, 500);
    assert_eq!(r.body, "Failed to build response");
    assert!(r.headers.is_empty());
    assert!(is_header_value("tab\there \u{e9}"));
    assert!(!is_header_value("del\u{7f}"));
}

#[test]
fn request_from_parts() {
    let mut params = StrMap::new();
    params.insert("id".to_string(), "7".to_string());
    let headers = vec![("host".to_string(), "a".to_string()), ("host".to_string(), "b".to_string())];
    let req = JsRequest::from_parts(
        "GET".to_string(),
        "/items/7".to_string(),
        &headers,
        b"",
        params,
        Some("a=1&b=2+3&a=4&c=%41"),
    );
    assert_eq!(req.method, "GET");
    assert_eq!(req.path, "/items/7");
    assert_eq!(req.body, None);
    assert_eq!(req.headers.get("host"), Some("b".to_string()));
    assert_eq!(req.params.get("id"), Some("7".to_string()));
    assert_eq!(req.query.get("a"), Some("4".to_string()));
    assert_eq!(req.query.get("b"), Some("2 3".to_string()));
    assert_eq!(req.query.get("c"), Some("A".to_string()));
    let req = JsRequest::from_parts(String::new(), String::new(), &Vec::new(), &[0x68, 0xff], StrMap::new(), None);
    assert_eq!(req.body, Some("h\u{fffd}".to_string()));
    assert_eq!(req.query.len(), 0);
}

#[test]
fn res_sends_once() {
    let mut res: Res<u8> = Res::new_with_sender(5);
    res.status(404);
    res.header("x".to_string(), "1".to_string());
    res.header("x".to_string(), "2".to_string());
    let (s, resp) = res.send("gone".to_string()).expect("first send");
    assert_eq!(s, 5);
    assert_eq!(resp.status_code, Some(404));
    assert_eq!(resp.body, Some("gone".to_string()));
    assert_eq!(resp.headers.get("x"), Some("2".to_string()));
    let again = res.send("twice".to_string());
    assert!(matches!(again, Err(SendError::AlreadySent)));
    assert_eq!(SendError::AlreadySent.message(), "Response already sent");
    let mut plain: Res<u8> = Res::new_with_sender(1);
    let (_, resp) = plain.send(String::new()).expect("send");
    assert_eq!(resp.status_code, Some(200));
}

#[test]
fn error_body_parses_back_to_message() {
    for message in ["plain", "say \"hi\"", "back\\slash", "ctl\u{1}\n\t", "caf\u{e9} \u{1f600}", ""] {
        let r = create_error_response(404, message);
        assert_eq!(r.status, 404);
        let v: serde_json::Value = serde_json::from_str(&r.body).expect("valid JSON");
        let obj = v.as_object().expect("an object");
        assert_eq!(obj.len(), 1);
        assert_eq!(obj.get("error").and_then(|x| x.as_str()), Some(message));
    }
}
