use ovsdb::adapter::{rewrite_inbound, rewrite_outbound};
use ovsdb::codec::{extract_uuid, json_to_ovsdb_value, ovsdb_value_to_json};
use ovsdb::framer::JsonCodec;
use ovsdb::json::Json;
use ovsdb::schema::{MonitorRequest, MonitorRequestSelect, UpdateNotification};
use ovsdb::serializable::{from_ovsdb_json, to_ovsdb_json, try_set_of, OvsdbMap};
use ovsdb::uuid_text::Uuid;
use ovsdb::value::{OvsdbAtom, OvsdbValue};

fn from_value(v: &serde_json::Value) -> Json {
    match v {
        serde_json::Value::Null => Json::Null,
        serde_json::Value::Bool(b) => Json::Bool(*b),
        serde_json::Value::Number(n) => match n.as_i64() {
            Some(i) => Json::Int(i),
            None => Json::Real(n.as_f64().unwrap_or(0.0).to_bits()),
        },
        serde_json::Value::String(s) => Json::Str(s.clone()),
        serde_json::Value::Array(items) => Json::Array(items.iter().map(from_value).collect()),
        serde_json::Value::Object(m) => Json::Object(
            m.iter().map(|(k, x)| (k.clone(), from_value(x))).collect(),
        ),
    }
}

fn parse(text: &str) -> Json {
    from_value(&serde_json::from_str::<serde_json::Value>(text).unwrap())
}

fn uuid(text: &str) -> Uuid {
    Uuid::parse_str(text).unwrap()
}

const A: &str = "601c7161-97df-42ae-b377-3baf21830d8f";
const B: &str = "701c7161-97df-42ae-b377-3baf21830d8f";

#[test]
fn empty_set_in_each_wire_form() {
    for text in ["[]", "null", r#"["set", []]"#] {
        let decoded: Vec<String> = from_ovsdb_json(&parse(text)).unwrap();
        assert!(decoded.is_empty());
    }
}

#[test]
fn single_element_set_in_each_wire_form() {
    let bare = format!(r#"["uuid", "{}"]"#, A);
    let long = format!(r#"["set", [["uuid", "{}"]]]"#, A);
    for text in [bare, long] {
        let decoded: Vec<Uuid> = from_ovsdb_json(&parse(&text)).unwrap();
        assert_eq!(decoded, vec![uuid(A)]);
    }
}

#[test]
fn set_encoding_by_size() {
    let none: Vec<i64> = vec![];
    assert_eq!(to_ovsdb_json(&none), parse("[]"));
    assert_eq!(to_ovsdb_json(&vec![7i64]), parse("7"));
    assert_eq!(to_ovsdb_json(&vec![7i64, 8]), parse(r#"["set", [7, 8]]"#));
    let two = vec![uuid(A), uuid(B)];
    let expected = format!(r#"["set", [["uuid", "{}"], ["uuid", "{}"]]]"#, A, B);
    assert_eq!(to_ovsdb_json(&two), parse(&expected));
}

#[test]
fn large_number_reads_as_real() {
    let j = parse("18446744073709551615");
    let v = json_to_ovsdb_value(&j).unwrap();
    assert_eq!(v, OvsdbValue::Atom(OvsdbAtom::Real(18446744073709551615f64.to_bits())));
    assert_eq!(json_to_ovsdb_value(&parse("-5")).unwrap(), OvsdbValue::Atom(OvsdbAtom::Integer(-5)));
}

#[test]
fn value_json_round_trip() {
    let values = vec![
        OvsdbValue::Atom(OvsdbAtom::String("x".to_string())),
        OvsdbValue::Atom(OvsdbAtom::Boolean(true)),
        OvsdbValue::Atom(OvsdbAtom::Uuid(uuid(A))),
        OvsdbValue::Atom(OvsdbAtom::NamedUuid("row1".to_string())),
        OvsdbValue::AtomSet(vec![]),
        OvsdbValue::AtomSet(vec![OvsdbAtom::Integer(1), OvsdbAtom::Integer(2)]),
        OvsdbValue::AtomMap(vec![(OvsdbAtom::String("k".to_string()), OvsdbAtom::Integer(3))]),
    ];
    for v in values {
        assert_eq!(json_to_ovsdb_value(&ovsdb_value_to_json(&v)).unwrap(), v);
    }
    let one = OvsdbValue::AtomSet(vec![OvsdbAtom::Integer(1)]);
    assert_eq!(
        json_to_ovsdb_value(&ovsdb_value_to_json(&one)).unwrap(),
        OvsdbValue::Atom(OvsdbAtom::Integer(1))
    );
}

#[test]
fn tagged_forms_and_failures() {
    let named = json_to_ovsdb_value(&parse(r#"["named-uuid", "row1"]"#)).unwrap();
    assert_eq!(named, OvsdbValue::Atom(OvsdbAtom::NamedUuid("row1".to_string())));
    assert!(json_to_ovsdb_value(&parse(r#"["uuid", "not-a-uuid"]"#)).is_none());
    assert!(json_to_ovsdb_value(&parse(r#"["set", [[1, 2]]]"#)).is_none());
    assert!(json_to_ovsdb_value(&parse(r#"["map", [["a"]]]"#)).is_none());
    assert!(json_to_ovsdb_value(&parse(r#"{"a": 1}"#)).is_none());
    assert!(json_to_ovsdb_value(&parse("[1, 2, 3]")).is_none());
    let m = json_to_ovsdb_value(&parse(r#"["map", [["test", "bara"]]]"#)).unwrap();
    assert_eq!(
        m,
        OvsdbValue::AtomMap(vec![(
            OvsdbAtom::String("test".to_string()),
            OvsdbAtom::String("bara".to_string())
        )])
    );
}

#[test]
fn uuid_text_round_trip() {
    let u = uuid(A);
    assert_eq!(u.as_u128(), 0x601c716197df42aeb3773baf21830d8f);
    assert_eq!(u.to_hyphenated(), A);
    assert_eq!(Uuid::parse_str(&u.to_hyphenated()), Some(u));
    assert_eq!(Uuid::parse_str("601C7161-97DF-42AE-B377-3BAF21830D8F"), Some(u));
    assert_eq!(Uuid::parse_str("nope"), None);
    assert_eq!(extract_uuid(&parse(&format!(r#"["uuid", "{}"]"#, A))), Some(u));
    assert_eq!(extract_uuid(&parse(&format!(r#"["named-uuid", "{}"]"#, A))), None);
}

#[test]
fn list_dbs_round_trip() {
    let request = parse(r#"{"jsonrpc": "2.0", "id": 1, "method": "list_dbs"}"#);
    let sent = rewrite_outbound(request).unwrap();
    assert_eq!(sent, parse(r#"{"id": 1, "method": "list_dbs", "params": []}"#));

    let reply = parse(r#"{"id": 1, "result": ["OVN_Northbound", "_Server"], "error": null}"#);
    let handed_on = rewrite_inbound(reply).unwrap();
    assert_eq!(handed_on.get("jsonrpc").unwrap().as_str(), Some("2.0"));
    assert!(handed_on.get("error").is_none());
    assert_eq!(handed_on.get("id").unwrap().as_i64(), Some(1));
    let result = handed_on.get("result").unwrap().as_array().unwrap();
    assert_eq!(result[0].as_str(), Some("OVN_Northbound"));
    assert_eq!(result[1].as_str(), Some("_Server"));
}

#[test]
fn update_notification_delivery() {
    let text = format!(
        r#"{{"method": "update", "params": [null, {{"NB_Global": {{"{}": {{"new": {{"name": "global"}}}}}}}}], "id": null}}"#,
        A
    );
    let handed_on = rewrite_inbound(parse(&text)).unwrap();
    assert!(handed_on.get("id").is_none());
    assert_eq!(handed_on.get("jsonrpc").unwrap().as_str(), Some("2.0"));
    let params = match handed_on {
        Json::Object(es) => es.into_iter().find(|(k, _)| k == "params").unwrap().1,
        _ => panic!("not an object"),
    };
    let note = UpdateNotification::from_params(params).unwrap();
    assert_eq!(note.id, None);
    assert!(note.message.get("NB_Global").is_some());
    assert!(UpdateNotification::from_params(parse("[1, {}]")).is_none());
    assert!(UpdateNotification::from_params(parse(r#"[null, {"T": 5}]"#)).is_none());
    assert!(UpdateNotification::from_params(parse(r#"[null, {"T": {}}, 3]"#)).is_none());
    let named = UpdateNotification::from_params(parse(r#"["m", {}]"#)).unwrap();
    assert_eq!(named.id, Some("m".to_string()));
}

#[test]
fn update_unsubscribe_is_not_sent() {
    let frame = parse(r#"{"jsonrpc": "2.0", "id": 4, "method": "update", "params": ["sub"]}"#);
    assert!(rewrite_outbound(frame).is_none());
    let echo = parse(r#"{"id": 5, "method": "echo", "params": ["x"]}"#);
    assert_eq!(rewrite_outbound(echo), Some(parse(r#"{"id": 5, "method": "echo", "params": ["x"]}"#)));
}

#[test]
fn clean_inbound_frame_passes_unchanged() {
    let frame = parse(r#"{"jsonrpc": "2.0", "id": 3, "result": {"a": 1}}"#);
    let copy = parse(r#"{"jsonrpc": "2.0", "id": 3, "result": {"a": 1}}"#);
    assert_eq!(rewrite_inbound(frame), Some(copy));
    let error_only = parse(r#"{"id": 3, "error": {"code": 1}, "result": null}"#);
    assert!(rewrite_inbound(error_only).unwrap().get("error").is_none());
    assert!(rewrite_inbound(parse("[1, 2]")).is_none());
    assert!(rewrite_inbound(parse("null")).is_none());
}

#[test]
fn framer_reads_whole_documents() {
    let mut codec = JsonCodec;
    let mut buf: Vec<u8> = Vec::new();
    assert!(matches!(codec.decode(&mut buf), Ok(None)));

    codec.encode(br#"{"a": 1}{"b""#, &mut buf);
    assert_eq!(buf, br#"{"a": 1}{"b""#.to_vec());
    let first = codec.decode(&mut buf).unwrap().unwrap();
    assert_eq!(from_value(&first), parse(r#"{"a": 1}"#));
    assert_eq!(buf, br#"{"b""#.to_vec());
    assert!(matches!(codec.decode(&mut buf), Ok(None)));
    assert_eq!(buf, br#"{"b""#.to_vec());

    let mut bad = b"]".to_vec();
    assert!(codec.decode(&mut bad).is_err());
    assert_eq!(bad, b"]".to_vec());
}

#[test]
fn monitor_request_leaves_out_unset_members() {
    assert_eq!(MonitorRequest::default().to_json(), parse("{}"));
    let r = MonitorRequest { columns: Some(vec!["name".to_string(), "ssl".to_string()]), select: None };
    assert_eq!(r.to_json(), parse(r#"{"columns": ["name", "ssl"]}"#));
    let sel = MonitorRequestSelect { initial: Some(true), insert: None, delete: Some(false), modify: None };
    let j = MonitorRequest { columns: None, select: Some(sel) }.to_json();
    assert!(j.get("columns").is_none());
    let s = j.get("select").unwrap();
    assert_eq!(s.get("initial").unwrap().as_bool(), Some(true));
    assert!(s.get("insert").unwrap().is_null());
    assert_eq!(s.get("delete").unwrap().as_bool(), Some(false));
    assert!(s.get("modify").unwrap().is_null());
}

#[test]
fn collections_of_non_atoms_fail_to_convert() {
    assert!(try_set_of(&vec![vec![1i64, 2]]).is_none());
    assert_eq!(
        try_set_of(&vec![1i64, 2]),
        Some(OvsdbValue::AtomSet(vec![OvsdbAtom::Integer(1), OvsdbAtom::Integer(2)]))
    );
    let mut m: OvsdbMap<String, Vec<i64>> = OvsdbMap::new();
    m.insert("k".to_string(), vec![1, 2]);
    assert!(m.try_to_ovsdb().is_none());
    let mut ok: OvsdbMap<String, i64> = OvsdbMap::new();
    ok.insert("k".to_string(), 1);
    ok.insert("k".to_string(), 2);
    assert_eq!(
        ok.try_to_ovsdb(),
        Some(OvsdbValue::AtomMap(vec![(OvsdbAtom::String("k".to_string()), OvsdbAtom::Integer(2))]))
    );
}

#[test]
fn framer_drops_only_the_document_it_read() {
    let mut codec = JsonCodec;
    let mut buf = b"  [1, 2] 7".to_vec();
    let first = codec.decode(&mut buf).unwrap().unwrap();
    assert_eq!(from_value(&first), parse("[1, 2]"));
    assert_eq!(buf, b" 7".to_vec());
    let mut partial = br#"{"id":1,"res"#.to_vec();
    assert!(matches!(codec.decode(&mut partial), Ok(None)));
    assert_eq!(partial, br#"{"id":1,"res"#.to_vec());
    let mut bad = b"{]".to_vec();
    assert!(codec.decode(&mut bad).is_err());
    assert_eq!(bad, b"{]".to_vec());
}
