use minifetch::errors::ErrorChain;
use minifetch::request::RequestOptions;
use minifetch::request::build_plan;
use minifetch::response::build_response;

fn pair(name: &str, value: &str) -> (String, String) {
    (name.to_string(), value.to_string())
}

#[test]
fn plan_without_options_is_bare() {
    let plan = build_plan("https://example.com/".to_string(), None);
    assert_eq!(plan.url, "https://example.com/");
    assert!(plan.headers.is_empty());
    assert_eq!(plan.timeout_ms, None);
}

#[test]
fn plan_widens_the_timeout_to_milliseconds() {
    let opts = RequestOptions { headers: None, timeout: Some(1500) };
    let plan = build_plan("https://example.com/".to_string(), Some(opts));
    assert_eq!(plan.timeout_ms, Some(1500u64));
    assert!(plan.headers.is_empty());
}

#[test]
fn plan_collapses_duplicate_header_names() {
    let opts = RequestOptions {
        headers: Some(vec![pair("accept", "text/plain"), pair("accept", "application/json")]),
        timeout: None,
    };
    let plan = build_plan("https://example.com/".to_string(), Some(opts));
    assert_eq!(plan.headers.len(), 1);
    assert!(plan.headers.iter().any(|p| p.0 == "accept" && p.1 == "application/json"));
    assert_eq!(plan.timeout_ms, None);
}

#[test]
fn plan_keeps_every_supplied_name() {
    let opts = RequestOptions {
        headers: Some(vec![pair("accept", "*/*"), pair("x-token", "t"), pair("accept", "text/*")]),
        timeout: Some(1),
    };
    let plan = build_plan("https://example.com/".to_string(), Some(opts));
    assert!(plan.headers.iter().any(|p| p.0 == "accept"));
    assert!(plan.headers.iter().any(|p| p.0 == "x-token"));
}

#[test]
fn successful_body_yields_a_full_record() {
    let raw = vec![
        ("content-type".to_string(), b"text/plain".to_vec()),
        ("server".to_string(), b"demo".to_vec()),
    ];
    let result = build_response(200, "https://example.com/final".to_string(), raw, Ok("hello".to_string()));
    let resp = result.unwrap();
    assert_eq!(resp.status, 200);
    assert_eq!(resp.url, "https://example.com/final");
    assert_eq!(resp.body, Some("hello".to_string()));
    assert_eq!(resp.headers.len(), 2);
    assert!(resp.headers.iter().any(|p| p.0 == "content-type" && p.1 == "text/plain"));
    assert!(resp.headers.iter().any(|p| p.0 == "server" && p.1 == "demo"));
}

#[test]
fn undecodable_header_value_becomes_empty() {
    let raw = vec![("x-raw".to_string(), vec![0xC3u8, 0x28u8])];
    let result = build_response(204, "https://example.com/".to_string(), raw, Ok(String::new()));
    let resp = result.unwrap();
    assert!(resp.headers.iter().any(|p| p.0 == "x-raw" && p.1 == ""));
}

#[test]
fn duplicate_wire_names_keep_the_later_value() {
    let raw = vec![
        ("set-cookie".to_string(), b"a=1".to_vec()),
        ("set-cookie".to_string(), b"b=2".to_vec()),
    ];
    let result = build_response(200, "https://example.com/".to_string(), raw, Ok(String::new()));
    let resp = result.unwrap();
    assert_eq!(resp.headers.len(), 1);
    assert!(resp.headers.iter().any(|p| p.0 == "set-cookie" && p.1 == "b=2"));
}

#[test]
fn failed_body_read_becomes_the_generic_failure() {
    let chain = ErrorChain {
        display: "error decoding response body".to_string(),
        source: Some(Box::new(ErrorChain {
            display: "Connection Reset By Peer (os error 104)".to_string(),
            source: None,
        })),
    };
    let result = build_response(200, "https://example.com/".to_string(), Vec::new(), Err(chain));
    let err = result.unwrap_err();
    assert_eq!(err.message, "connection reset by peer");
}
