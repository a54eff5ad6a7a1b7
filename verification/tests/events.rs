use ledger_events::render::{bytes_to_hex, u64_to_dec_string};
use ledger_events::{
    Attributes, AttributeStore, Error, Event, EventLevel, EventType, IbcEvent, JsonValue,
    ProposalEvent, Tx, TxType,
};

fn hash32(fill: u8) -> Vec<u8> {
    vec![fill; 32]
}

fn pair_record(key: &str, value: &str) -> JsonValue {
    JsonValue::Obj(vec![
        ("key".to_string(), JsonValue::Str(key.to_string())),
        ("value".to_string(), JsonValue::Str(value.to_string())),
    ])
}

fn payload(records: Vec<JsonValue>) -> JsonValue {
    JsonValue::Obj(vec![("attributes".to_string(), JsonValue::Arr(records))])
}

#[test]
fn canonical_type_strings_are_stable() {
    assert_eq!(EventType::Accepted.canonical_string().as_str(), "accepted");
    assert_eq!(EventType::Applied.canonical_string().as_str(), "applied");
    assert_eq!(EventType::Proposal.canonical_string().as_str(), "proposal");
    assert_eq!(
        EventType::Ibc("foo".to_string()).canonical_string().as_str(),
        "foo"
    );
}

#[test]
fn tx_event_has_level_height_log_and_hash() {
    let txs = vec![
        Tx::new(TxType::Wrapper, hash32(1)),
        Tx::new(TxType::Decrypted, hash32(2)),
        Tx::new(TxType::Protocol, hash32(3)),
    ];
    for tx in &txs {
        let event = Event::new_tx_event(tx, 42);
        assert_eq!(event.level, EventLevel::Tx);
        assert_eq!(event.get("height").unwrap().as_str(), "42");
        assert_eq!(event.get("log").unwrap().as_str(), "");
        let hash = event.get("hash").unwrap();
        assert!(!hash.is_empty());
        assert_eq!(hash.len(), 64);
    }
}

#[test]
fn tx_event_kind_follows_discriminant() {
    let accepted = Event::new_tx_event(&Tx::new(TxType::Wrapper, hash32(1)), 7);
    assert_eq!(accepted.event_type, EventType::Accepted);
    let applied = Event::new_tx_event(&Tx::new(TxType::Decrypted, hash32(1)), 7);
    assert_eq!(applied.event_type, EventType::Applied);
    let protocol = Event::new_tx_event(&Tx::new(TxType::Protocol, hash32(1)), 7);
    assert_eq!(protocol.event_type, EventType::Applied);
}

#[test]
fn tx_event_height_edge_values() {
    let tx = Tx::new(TxType::Protocol, hash32(9));
    let low = Event::new_tx_event(&tx, 0);
    assert_eq!(low.get("height").unwrap().as_str(), "0");
    let high = Event::new_tx_event(&tx, u64::MAX);
    assert_eq!(
        high.get("height").unwrap().as_str(),
        "18446744073709551615"
    );
}

#[test]
fn decrypted_event_keeps_submission_hash() {
    let wrapper = Tx::new(TxType::Wrapper, hash32(5));
    let submission_hash = wrapper.clone().update_header(TxType::Raw).header_hash();
    let decrypted = wrapper.update_header(TxType::Decrypted);
    let event = Event::new_tx_event(&decrypted, 11);
    assert_eq!(event.get("hash").unwrap().as_str(), submission_hash.as_str());
}

#[test]
fn wrapper_and_decrypted_events_differ_from_each_other() {
    let wrapper = Tx::new(TxType::Wrapper, hash32(5));
    let accepted = Event::new_tx_event(&wrapper, 11);
    let decrypted = wrapper.update_header(TxType::Decrypted);
    let applied = Event::new_tx_event(&decrypted, 11);
    assert_ne!(
        accepted.get("hash").unwrap().as_str(),
        applied.get("hash").unwrap().as_str()
    );
}

#[test]
fn header_hash_is_deterministic() {
    let a = Tx::new(TxType::Wrapper, hash32(8)).header_hash();
    let b = Tx::new(TxType::Wrapper, hash32(8)).header_hash();
    assert_eq!(a, b);
    let c = Tx::new(TxType::Wrapper, hash32(9)).header_hash();
    assert_ne!(a, c);
}

#[test]
fn write_then_read_returns_written_value() {
    let tx = Tx::new(TxType::Wrapper, hash32(1));
    let mut event = Event::new_tx_event(&tx, 3);
    assert!(!event.contains_key("code"));
    event.set("code", "0".to_string());
    assert!(event.contains_key("code"));
    assert_eq!(event.get("code").unwrap().as_str(), "0");
    assert_eq!(event.get_required("code").as_str(), "0");
}

#[test]
fn set_overwrites_existing_key() {
    let tx = Tx::new(TxType::Wrapper, hash32(1));
    let mut event = Event::new_tx_event(&tx, 3);
    event.set("log", "first".to_string());
    event.set("log", "second".to_string());
    assert_eq!(event.get("log").unwrap().as_str(), "second");
}

#[test]
fn absent_key_is_distinguishable_from_empty_value() {
    let tx = Tx::new(TxType::Wrapper, hash32(1));
    let event = Event::new_tx_event(&tx, 3);
    assert!(event.get("code").is_none());
    assert!(!event.contains_key("code"));
    assert!(event.get("log").is_some());
    assert!(event.contains_key("log"));
}

#[test]
fn ibc_event_preserves_sub_type_and_attributes() {
    let mut attributes = AttributeStore::new();
    attributes.set("packet_src_port", "transfer".to_string());
    attributes.set("packet_sequence", "4".to_string());
    let ibc = IbcEvent {
        event_type: "acknowledge_packet".to_string(),
        attributes,
    };
    let event = Event::from(ibc);
    assert_eq!(
        event.event_type,
        EventType::Ibc("acknowledge_packet".to_string())
    );
    assert_eq!(event.level, EventLevel::Tx);
    assert_eq!(
        event.get("packet_src_port").unwrap().as_str(),
        "transfer"
    );
    assert_eq!(event.get("packet_sequence").unwrap().as_str(), "4");
}

#[test]
fn proposal_event_is_block_level() {
    let mut attributes = AttributeStore::new();
    attributes.set("proposal_id", "12".to_string());
    let event = Event::from(ProposalEvent { attributes });
    assert_eq!(event.event_type, EventType::Proposal);
    assert_eq!(event.level, EventLevel::Block);
    assert_eq!(event.get("proposal_id").unwrap().as_str(), "12");
}

#[test]
fn wire_event_carries_type_string_and_indexed_triples() {
    let mut attributes = AttributeStore::new();
    attributes.set("hash", "AA".to_string());
    attributes.set("height", "5".to_string());
    let event = Event {
        event_type: EventType::Ibc("send_packet".to_string()),
        level: EventLevel::Tx,
        attributes,
    };
    let wire = event.into_wire();
    assert_eq!(wire.event_type.as_str(), "send_packet");
    assert_eq!(wire.attributes.len(), 2);
    assert_eq!(wire.attributes[0].key.as_str(), "hash");
    assert_eq!(wire.attributes[0].value.as_str(), "AA");
    assert!(wire.attributes[0].index);
    assert_eq!(wire.attributes[1].key.as_str(), "height");
    assert_eq!(wire.attributes[1].value.as_str(), "5");
    assert!(wire.attributes[1].index);
}

#[test]
fn wire_round_trip_reproduces_the_mapping() {
    let tx = Tx::new(TxType::Wrapper, hash32(7));
    let mut event = Event::new_tx_event(&tx, 77);
    event.set("code", "0".to_string());
    let expected: Vec<(String, String)> = vec![
        ("hash".to_string(), event.get("hash").unwrap().clone()),
        ("height".to_string(), "77".to_string()),
        ("log".to_string(), String::new()),
        ("code".to_string(), "0".to_string()),
    ];
    let wire = event.into_wire();
    let records: Vec<JsonValue> = wire
        .attributes
        .iter()
        .map(|a| pair_record(a.key.as_str(), a.value.as_str()))
        .collect();
    let parsed = Attributes::from_json(&payload(records)).unwrap();
    for (key, value) in &expected {
        assert_eq!(parsed.get(key.as_str()).unwrap(), value);
    }
}

#[test]
fn parser_reports_missing_attributes_field() {
    let input = JsonValue::Obj(vec![(
        "events".to_string(),
        JsonValue::Arr(vec![]),
    )]);
    assert_eq!(
        Attributes::from_json(&input).unwrap_err(),
        Error::MissingAttributes
    );
    let not_an_object = JsonValue::Str("attributes".to_string());
    assert_eq!(
        Attributes::from_json(&not_an_object).unwrap_err(),
        Error::MissingAttributes
    );
}

#[test]
fn parser_reports_missing_key_with_record_context() {
    let record = JsonValue::Obj(vec![(
        "value".to_string(),
        JsonValue::Str("v".to_string()),
    )]);
    let expected_context = record.to_json_string();
    assert_eq!(expected_context.as_str(), "{\"value\":\"v\"}");
    let result = Attributes::from_json(&payload(vec![record]));
    assert_eq!(result.unwrap_err(), Error::MissingKey(expected_context));
}

#[test]
fn parser_reports_missing_value_with_record_context() {
    let record = JsonValue::Obj(vec![(
        "key".to_string(),
        JsonValue::Str("k".to_string()),
    )]);
    let expected_context = record.to_json_string();
    assert_eq!(expected_context.as_str(), "{\"key\":\"k\"}");
    let result = Attributes::from_json(&payload(vec![
        pair_record("a", "1"),
        record,
    ]));
    assert_eq!(result.unwrap_err(), Error::MissingValue(expected_context));
}

#[test]
fn parser_keeps_last_value_of_repeated_key() {
    let parsed = Attributes::from_json(&payload(vec![
        pair_record("k", "first"),
        pair_record("k", "second"),
    ]))
    .unwrap();
    assert_eq!(parsed.get("k").unwrap().as_str(), "second");
}

#[test]
fn parser_accepts_empty_attribute_list() {
    let parsed = Attributes::from_json(&payload(vec![])).unwrap();
    assert!(parsed.get("anything").is_none());
}

#[test]
fn take_removes_and_returns_the_value() {
    let mut parsed = Attributes::from_json(&payload(vec![
        pair_record("height", "9"),
        pair_record("hash", "AB"),
    ]))
    .unwrap();
    assert_eq!(parsed.take("height").unwrap().as_str(), "9");
    assert!(parsed.take("height").is_none());
    assert!(parsed.get("height").is_none());
    assert_eq!(parsed.get("hash").unwrap().as_str(), "AB");
}

#[test]
fn error_messages_carry_context() {
    assert_eq!(
        Error::MissingAttributes.message().as_str(),
        "Json missing `attributes` field"
    );
    assert_eq!(
        Error::MissingKey("{}".to_string()).message().as_str(),
        "Attributes missing key: {}"
    );
    assert_eq!(
        Error::MissingValue("{}".to_string()).message().as_str(),
        "Attributes missing value: {}"
    );
}

#[test]
fn json_rendering_is_exact() {
    let value = JsonValue::Obj(vec![
        ("a".to_string(), JsonValue::Null),
        ("b".to_string(), JsonValue::Bool(true)),
        ("c".to_string(), JsonValue::Num(12)),
        (
            "d".to_string(),
            JsonValue::Arr(vec![JsonValue::Bool(false), JsonValue::Str("x".to_string())]),
        ),
    ]);
    assert_eq!(
        value.to_json_string().as_str(),
        "{\"a\":null,\"b\":true,\"c\":12,\"d\":[false,\"x\"]}"
    );
    let escaped = JsonValue::Str("a\"b\\c".to_string());
    assert_eq!(escaped.to_json_string().as_str(), "\"a\\\"b\\\\c\"");
}

#[test]
fn decimal_rendering_is_exact() {
    assert_eq!(u64_to_dec_string(0).as_str(), "0");
    assert_eq!(u64_to_dec_string(7).as_str(), "7");
    assert_eq!(u64_to_dec_string(1234567890).as_str(), "1234567890");
    assert_eq!(
        u64_to_dec_string(u64::MAX).as_str(),
        "18446744073709551615"
    );
}

#[test]
fn hex_rendering_is_exact() {
    assert_eq!(bytes_to_hex(&vec![]).as_str(), "");
    assert_eq!(bytes_to_hex(&vec![0x00, 0xAB, 0xFF, 0x1C]).as_str(), "00ABFF1C");
}
