use minifetch::errors::ErrorChain;
use minifetch::errors::normalize_error;
use minifetch::text::normalize_message;

fn leaf(text: &str) -> ErrorChain {
    ErrorChain { display: text.to_string(), source: None }
}

fn wrap(text: &str, inner: ErrorChain) -> ErrorChain {
    ErrorChain { display: text.to_string(), source: Some(Box::new(inner)) }
}

#[test]
fn root_cause_truncation() {
    let chain = wrap(
        "error sending request for url (https://example.com/): connection refused",
        leaf("connection refused"),
    );
    let err = normalize_error(&chain);
    assert_eq!(err.message, "connection refused");
}

#[test]
fn dns_failure_split_before_parenthesis() {
    let chain = wrap(
        "error sending request for url (https://nosuch.example/)",
        wrap("dns error", leaf("Name or service not known (os error -2)")),
    );
    let err = normalize_error(&chain);
    assert_eq!(err.message, "name or service not known");
}

#[test]
fn normalization_is_deterministic_across_calls() {
    let a = wrap("outer context: details", leaf("Connection Reset By Peer (os error 104)"));
    let b = wrap("outer context: details", leaf("Connection Reset By Peer (os error 104)"));
    let first = normalize_error(&a);
    let second = normalize_error(&a);
    let other = normalize_error(&b);
    assert_eq!(first.message, second.message);
    assert_eq!(first.message, other.message);
}

#[test]
fn timeout_message_is_short_and_lowercase() {
    let chain = wrap(
        "error sending request for url (https://slow.example/): operation timed out",
        leaf("operation timed out"),
    );
    let err = normalize_error(&chain);
    assert!(!err.message.is_empty());
    assert!(!err.message.contains(':'));
    assert!(!err.message.contains('('));
    assert_eq!(err.message, err.message.to_lowercase());
    assert_eq!(err.message, "operation timed out");
}

#[test]
fn single_level_chain_uses_its_own_text() {
    let err = normalize_error(&leaf("Permission Denied"));
    assert_eq!(err.message, "permission denied");
}

#[test]
fn deep_chain_reaches_the_deepest_cause() {
    let chain = wrap("level one: a", wrap("level two: b", wrap("level three: c", leaf("the root"))));
    let err = normalize_error(&chain);
    assert_eq!(err.message, "the root");
}

#[test]
fn cut_keeps_text_before_first_colon() {
    assert_eq!(normalize_message("foo: bar: baz"), "foo");
}

#[test]
fn cut_keeps_text_before_first_parenthesis() {
    assert_eq!(normalize_message("address in use (48)"), "address in use");
}

#[test]
fn leading_parenthesis_leaves_nothing() {
    assert_eq!(normalize_message("(only context)"), "");
}

#[test]
fn surrounding_whitespace_is_trimmed() {
    assert_eq!(normalize_message("  MiXeD Case  "), "mixed case");
}

#[test]
fn uppercase_text_is_lowercased() {
    assert_eq!(normalize_message("ABC"), "abc");
}

#[test]
fn tabs_and_newlines_are_trimmed() {
    assert_eq!(normalize_message("\t X \n"), "x");
}

#[test]
fn empty_text_stays_empty() {
    assert_eq!(normalize_message(""), "");
}
