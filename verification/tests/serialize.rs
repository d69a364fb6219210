use jtable_response::Action;
use jtable_response::JTableResponse;

use serde_json::Value;

/// A sample record shaped like the ones the envelope was made for.
fn project(name: &str, version: u64, contributors: &[&str]) -> Value {
    let mut m = serde_json::Map::new();
    m.insert("name".to_string(), Value::String(name.to_string()));
    m.insert("version".to_string(), Value::from(version));
    m.insert(
        "contributors".to_string(),
        Value::Array(
            contributors
                .iter()
                .map(|c| Value::String(c.to_string()))
                .collect(),
        ),
    );
    Value::Object(m)
}

fn parsed(text: &str) -> Value {
    serde_json::from_str(text).unwrap()
}

#[test]
fn serialize_list() {
    let rust = project("Rust", 2018, &["brson"]);
    let records = serde_json::to_string(&rust).unwrap();
    let response = JTableResponse::Success(Action::List(vec![records]));
    let mut expected = serde_json::Map::new();
    expected.insert("Result".to_string(), Value::String("OK".to_string()));
    expected.insert(
        "Records".to_string(),
        Value::Array(vec![project("Rust", 2018, &["brson"])]),
    );
    assert_eq!(parsed(&response.to_json()), Value::Object(expected));

    let response: JTableResponse<String> =
        JTableResponse::Failure("Requested entry violates constraints");
    let mut expected = serde_json::Map::new();
    expected.insert("Result".to_string(), Value::String("ERROR".to_string()));
    expected.insert(
        "Message".to_string(),
        Value::String("Requested entry violates constraints".to_string()),
    );
    assert_eq!(parsed(&response.to_json()), Value::Object(expected));

    let jtable = project("jtable", 1, &[]);
    let record = serde_json::to_string(&jtable).unwrap();
    let response = JTableResponse::Success(Action::Create(record));
    let mut expected = serde_json::Map::new();
    expected.insert("Result".to_string(), Value::String("OK".to_string()));
    expected.insert("Record".to_string(), project("jtable", 1, &[]));
    assert_eq!(parsed(&response.to_json()), Value::Object(expected));
}

#[test]
fn list_record_text() {
    let record = r#"{"name":"Rust","version":2018,"contributors":["brson"]}"#.to_string();
    let response = JTableResponse::Success(Action::List(vec![record]));
    assert_eq!(
        response.to_json(),
        r#"{"Result":"OK","Records":[{"name":"Rust","version":2018,"contributors":["brson"]}]}"#
    );
}

#[test]
fn error_message_text() {
    let response: JTableResponse<String> =
        JTableResponse::Failure("Requested entry violates constraints");
    assert_eq!(
        response.to_json(),
        r#"{"Result":"ERROR","Message":"Requested entry violates constraints"}"#
    );
}

#[test]
fn create_record_text() {
    let record = r#"{"name":"jtable","version":1,"contributors":[]}"#.to_string();
    let response = JTableResponse::Success(Action::Create(record));
    assert_eq!(
        response.to_json(),
        r#"{"Result":"OK","Record":{"name":"jtable","version":1,"contributors":[]}}"#
    );
}

#[test]
fn update_minimal() {
    let response: JTableResponse<String> = JTableResponse::Success(Action::Update);
    assert_eq!(response.to_json(), r#"{"Result":"OK"}"#);
}

#[test]
fn delete_minimal() {
    let response: JTableResponse<String> = JTableResponse::Success(Action::Delete);
    assert_eq!(response.to_json(), r#"{"Result":"OK"}"#);
}

#[test]
fn empty_list_still_emits_records() {
    let response: JTableResponse<String> = JTableResponse::Success(Action::List(vec![]));
    assert_eq!(response.to_json(), r#"{"Result":"OK","Records":[]}"#);
}

#[test]
fn list_keeps_order() {
    let response = JTableResponse::Success(Action::List(vec![
        "1".to_string(),
        "2".to_string(),
        "3".to_string(),
    ]));
    assert_eq!(response.to_json(), r#"{"Result":"OK","Records":[1,2,3]}"#);
}

#[test]
fn message_escaping_matches_serde_json() {
    let message = "a \"quoted\" \\ backslash\nnewline\ttab \u{1} control";
    let response: JTableResponse<String> = JTableResponse::Failure(message);
    let out = response.to_json();

    // The emitted literal is byte-for-byte what serde_json would emit.
    let literal = serde_json::to_string(&Value::String(message.to_string())).unwrap();
    assert_eq!(out, format!("{{\"Result\":\"ERROR\",\"Message\":{}}}", literal));

    // A real JSON parser reads the message back unchanged.
    let value = parsed(&out);
    assert_eq!(value["Message"], Value::String(message.to_string()));
}

#[test]
fn message_non_ascii_verbatim() {
    let message = "h\u{e9}llo \u{2603} \u{1f980}";
    let response: JTableResponse<String> = JTableResponse::Failure(message);
    let out = response.to_json();

    // Characters above the control range pass through unescaped,
    // exactly as serde_json leaves them.
    let literal = serde_json::to_string(&Value::String(message.to_string())).unwrap();
    assert_eq!(out, format!("{{\"Result\":\"ERROR\",\"Message\":{}}}", literal));
    assert_eq!(parsed(&out)["Message"], Value::String(message.to_string()));
}

#[test]
fn message_control_chars_exact() {
    let response: JTableResponse<String> = JTableResponse::Failure("\u{1f}\u{0}\u{8}\u{c}\u{d}");
    assert_eq!(
        response.to_json(),
        "{\"Result\":\"ERROR\",\"Message\":\"\\u001f\\u0000\\b\\f\\r\"}"
    );
}

#[test]
fn field_exclusivity() {
    let responses: Vec<JTableResponse<String>> = vec![
        JTableResponse::Success(Action::List(vec!["{}".to_string()])),
        JTableResponse::Success(Action::Create("{}".to_string())),
        JTableResponse::Success(Action::Update),
        JTableResponse::Success(Action::Delete),
        JTableResponse::Failure("boom"),
    ];
    for response in responses {
        let failure = matches!(&response, JTableResponse::Failure(_));
        let value = parsed(&response.to_json());
        let object = value.as_object().unwrap();
        let extras = ["Message", "Record", "Records"]
            .iter()
            .filter(|k| object.contains_key(**k))
            .count();
        assert!(extras <= 1);
        // Result correlation: "OK" exactly on success, "ERROR" exactly on failure.
        let expected = if failure { "ERROR" } else { "OK" };
        assert_eq!(object["Result"], Value::String(expected.to_string()));
        if failure {
            assert!(object.contains_key("Message"));
        } else {
            assert!(!object.contains_key("Message"));
        }
    }
}
