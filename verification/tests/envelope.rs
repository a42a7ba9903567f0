use serde_json::Value;
use signal_relay::envelope::SignalEnvelope;

fn parsed(text: &str) -> Value {
    serde_json::from_str::<Value>(text).unwrap()
}

#[test]
fn join_announcement_has_the_documented_wire_form() {
    let e = SignalEnvelope::announcement("join", "alice");
    assert_eq!(e.kind, "join");
    assert_eq!(e.sender, "alice");
    assert_eq!(e.data, None);
    assert_eq!(
        e.encode(),
        Some("{\"type\":\"join\",\"sender\":\"alice\",\"data\":null}".to_string())
    );
}

#[test]
fn leave_announcement_has_the_documented_wire_form() {
    let e = SignalEnvelope::announcement("leave", "bob");
    assert_eq!(
        e.encode(),
        Some("{\"type\":\"leave\",\"sender\":\"bob\",\"data\":null}".to_string())
    );
}

#[test]
fn encode_escapes_what_json_strings_must_escape() {
    let e = SignalEnvelope {
        kind: "a\"b".to_string(),
        sender: "line\nbreak\\".to_string(),
        data: None,
    };
    assert_eq!(
        e.encode(),
        Some("{\"type\":\"a\\\"b\",\"sender\":\"line\\nbreak\\\\\",\"data\":null}".to_string())
    );
}

#[test]
fn encode_writes_the_payload_compactly() {
    let e = SignalEnvelope {
        kind: "offer".to_string(),
        sender: "alice".to_string(),
        data: Some(parsed("{ \"sdp\" : \"v=0\", \"n\" : [1, 2.5, true, null] }")),
    };
    assert_eq!(
        e.encode(),
        Some(
            "{\"type\":\"offer\",\"sender\":\"alice\",\"data\":{\"n\":[1,2.5,true,null],\"sdp\":\"v=0\"}}"
                .to_string()
        )
    );
}

#[test]
fn encode_writes_a_string_payload_quoted() {
    let e = SignalEnvelope {
        kind: "chat".to_string(),
        sender: "a".to_string(),
        data: Some(Value::String("hi".to_string())),
    };
    assert_eq!(
        e.encode(),
        Some("{\"type\":\"chat\",\"sender\":\"a\",\"data\":\"hi\"}".to_string())
    );
}

#[test]
fn decode_reads_the_three_members() {
    let e = SignalEnvelope::decode("{\"type\":\"offer\",\"sender\":\"mallory\",\"data\":{\"sdp\":\"x\"}}")
        .unwrap();
    assert_eq!(e.kind, "offer");
    assert_eq!(e.sender, "mallory");
    assert_eq!(e.data, Some(parsed("{\"sdp\":\"x\"}")));
}

#[test]
fn decode_takes_members_in_any_order_and_ignores_unknown_ones() {
    let e = SignalEnvelope::decode(
        "{\"extra\":[1,2],\"data\":7,\"sender\":\"s\",\"more\":{\"type\":\"no\"},\"type\":\"t\"}",
    )
    .unwrap();
    assert_eq!(e.kind, "t");
    assert_eq!(e.sender, "s");
    assert_eq!(e.data, Some(parsed("7")));
}

#[test]
fn decode_treats_missing_data_as_null() {
    let e = SignalEnvelope::decode("{\"type\":\"ping\",\"sender\":\"s\"}").unwrap();
    assert_eq!(e.data, None);
    assert_eq!(
        e.encode(),
        Some("{\"type\":\"ping\",\"sender\":\"s\",\"data\":null}".to_string())
    );
}

#[test]
fn decode_treats_null_data_as_none() {
    let e = SignalEnvelope::decode("{\"type\":\"ping\",\"sender\":\"s\",\"data\":null}").unwrap();
    assert_eq!(e.data, None);
}

#[test]
fn decode_keeps_false_zero_and_empty_payloads() {
    let e = SignalEnvelope::decode("{\"type\":\"t\",\"sender\":\"s\",\"data\":false}").unwrap();
    assert_eq!(e.data, Some(Value::Bool(false)));
    let e = SignalEnvelope::decode("{\"type\":\"t\",\"sender\":\"s\",\"data\":\"\"}").unwrap();
    assert_eq!(e.data, Some(Value::String(String::new())));
    let e = SignalEnvelope::decode("{\"type\":\"t\",\"sender\":\"s\",\"data\":[]}").unwrap();
    assert_eq!(e.data, Some(parsed("[]")));
}

#[test]
fn decode_accepts_empty_strings() {
    let e = SignalEnvelope::decode("{\"type\":\"\",\"sender\":\"\"}").unwrap();
    assert_eq!(e.kind, "");
    assert_eq!(e.sender, "");
}

#[test]
fn decode_unescapes_strings() {
    let e = SignalEnvelope::decode("{\"type\":\"a\\\"b\",\"sender\":\"\\u0041\\n\"}").unwrap();
    assert_eq!(e.kind, "a\"b");
    assert_eq!(e.sender, "A\n");
}

#[test]
fn decode_rejects_text_that_is_not_json() {
    assert_eq!(SignalEnvelope::decode("hello"), None);
    assert_eq!(SignalEnvelope::decode(""), None);
    assert_eq!(SignalEnvelope::decode("{\"type\":\"t\",\"sender\":\"s\""), None);
    assert_eq!(SignalEnvelope::decode("{\"type\":\"t\",\"sender\":\"s\"} x"), None);
}

#[test]
fn decode_rejects_json_that_is_no_object() {
    assert_eq!(SignalEnvelope::decode("[\"t\",\"s\",null]"), None);
    assert_eq!(SignalEnvelope::decode("\"text\""), None);
    assert_eq!(SignalEnvelope::decode("42"), None);
    assert_eq!(SignalEnvelope::decode("null"), None);
}

#[test]
fn decode_rejects_a_missing_type() {
    assert_eq!(SignalEnvelope::decode("{\"sender\":\"s\",\"data\":1}"), None);
}

#[test]
fn decode_rejects_a_missing_sender() {
    assert_eq!(SignalEnvelope::decode("{\"type\":\"t\",\"data\":1}"), None);
}

#[test]
fn decode_rejects_members_of_the_wrong_type() {
    assert_eq!(SignalEnvelope::decode("{\"type\":1,\"sender\":\"s\"}"), None);
    assert_eq!(SignalEnvelope::decode("{\"type\":\"t\",\"sender\":null}"), None);
    assert_eq!(SignalEnvelope::decode("{\"type\":\"t\",\"sender\":[\"s\"]}"), None);
    assert_eq!(SignalEnvelope::decode("{\"type\":null,\"sender\":\"s\"}"), None);
}

#[test]
fn from_document_reads_a_value() {
    let doc = parsed("{\"type\":\"t\",\"sender\":\"s\",\"data\":{\"k\":1}}");
    let e = SignalEnvelope::from_document(&doc).unwrap();
    assert_eq!(
        e,
        SignalEnvelope {
            kind: "t".to_string(),
            sender: "s".to_string(),
            data: Some(parsed("{\"k\":1}")),
        }
    );
    assert_eq!(SignalEnvelope::from_document(&parsed("[1,2]")), None);
    assert_eq!(SignalEnvelope::from_document(&Value::Null), None);
}

#[test]
fn assemble_needs_both_texts() {
    let made = SignalEnvelope::assemble(Some("t".to_string()), Some("s".to_string()), Some(Value::Bool(true)));
    assert_eq!(
        made,
        Some(SignalEnvelope {
            kind: "t".to_string(),
            sender: "s".to_string(),
            data: Some(Value::Bool(true)),
        })
    );
    assert_eq!(SignalEnvelope::assemble(None, Some("s".to_string()), None), None);
    assert_eq!(SignalEnvelope::assemble(Some("t".to_string()), None, None), None);
    assert_eq!(SignalEnvelope::assemble(None, None, Some(Value::Null)), None);
}

#[test]
fn stamped_replaces_the_sender_only() {
    let e = SignalEnvelope {
        kind: "offer".to_string(),
        sender: "forged".to_string(),
        data: Some(parsed("[1]")),
    };
    let signed = e.stamped("alice");
    assert_eq!(signed.kind, "offer");
    assert_eq!(signed.sender, "alice");
    assert_eq!(signed.data, Some(parsed("[1]")));
}

#[test]
fn decode_then_encode_gives_the_compact_form() {
    let e = SignalEnvelope::decode(
        " { \"data\" : { \"b\" : 1 , \"a\" : \"x\" } , \"sender\" : \"s\" , \"type\" : \"t\" } ",
    )
    .unwrap();
    assert_eq!(
        e.encode(),
        Some("{\"type\":\"t\",\"sender\":\"s\",\"data\":{\"a\":\"x\",\"b\":1}}".to_string())
    );
}
