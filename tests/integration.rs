use ovsdb::json::Json;
use ovsdb::nb_global::NbGlobal;
use ovsdb::serializable::OvsdbMap;
use ovsdb::uuid_text::Uuid;

fn from_value(v: &serde_json::Value) -> Json {
    match v {
        serde_json::Value::Null => Json::Null,
        serde_json::Value::Bool(b) => Json::Bool(*b),
        serde_json::Value::Number(n) => match n.as_i64() {
            Some(i) => Json::Int(i),
            None => Json::Real(n.as_f64().unwrap_or(0.0).to_bits()),
        },
        serde_json::Value::String(s) => Json::Str(s.clone()),
        serde_json::Value::Array(items) => Json::Array(items.iter().map(from_value).collect()),
        serde_json::Value::Object(m) => Json::Object(
            m.iter().map(|(k, x)| (k.clone(), from_value(x))).collect(),
        ),
    }
}

fn to_value(j: &Json) -> serde_json::Value {
    match j {
        Json::Null => serde_json::Value::Null,
        Json::Bool(b) => serde_json::Value::Bool(*b),
        Json::Int(i) => serde_json::Value::from(*i),
        Json::Real(r) => serde_json::Value::from(f64::from_bits(*r)),
        Json::Str(s) => serde_json::Value::String(s.clone()),
        Json::Array(items) => serde_json::Value::Array(items.iter().map(to_value).collect()),
        Json::Object(es) => {
            let mut m = serde_json::Map::new();
            for (k, x) in es {
                m.insert(k.clone(), to_value(x));
            }
            serde_json::Value::Object(m)
        }
    }
}

fn parse(text: &str) -> Json {
    from_value(&serde_json::from_str::<serde_json::Value>(text).unwrap())
}

#[test]
fn test_nb_global_deserialization() {
    let json_str = r#"{
        "connections": ["uuid", "601c7161-97df-42ae-b377-3baf21830d8f"],
        "external_ids": ["map", [["test", "bara"]]],
        "hv_cfg": 0,
        "hv_cfg_timestamp": 0,
        "ipsec": false,
        "name": "global",
        "nb_cfg": 0,
        "nb_cfg_timestamp": 0,
        "options": ["map", [["name", "global"], ["northd-backoff-interval-ms", "300"], ["northd_probe_interval", "5000"]]],
        "sb_cfg": 0,
        "sb_cfg_timestamp": 0,
        "ssl": ["set", []]
    }"#;

    let nb_global = NbGlobal::from_map(&parse(json_str)).unwrap();

    assert_eq!(nb_global.name, Some("global".to_string()));
    assert_eq!(nb_global.ipsec, Some(false));
    assert_eq!(nb_global.hv_cfg, Some(0));
    assert_eq!(nb_global.hv_cfg_timestamp, Some(0));
    assert_eq!(nb_global.nb_cfg, Some(0));
    assert_eq!(nb_global.nb_cfg_timestamp, Some(0));
    assert_eq!(nb_global.sb_cfg, Some(0));
    assert_eq!(nb_global.sb_cfg_timestamp, Some(0));

    let connection_uuid = Uuid::parse_str("601c7161-97df-42ae-b377-3baf21830d8f").unwrap();
    assert_eq!(nb_global.connections, Some(vec![connection_uuid]));

    assert_eq!(nb_global.ssl, Some(vec![]));

    let expected_external_ids = {
        let mut map = OvsdbMap::new();
        map.insert("test".to_string(), "bara".to_string());
        map
    };
    assert_eq!(nb_global.external_ids, Some(expected_external_ids));

    let expected_options = {
        let mut map = OvsdbMap::new();
        map.insert("name".to_string(), "global".to_string());
        map.insert("northd-backoff-interval-ms".to_string(), "300".to_string());
        map.insert("northd_probe_interval".to_string(), "5000".to_string());
        map
    };
    assert_eq!(nb_global.options, Some(expected_options));
}

#[test]
fn test_nb_global_serialization() {
    let mut nb_global = NbGlobal::new();

    nb_global.name = Some("global".to_string());
    nb_global.ipsec = Some(false);
    nb_global.hv_cfg = Some(0);
    nb_global.hv_cfg_timestamp = Some(0);
    nb_global.nb_cfg = Some(0);
    nb_global.nb_cfg_timestamp = Some(0);
    nb_global.sb_cfg = Some(0);
    nb_global.sb_cfg_timestamp = Some(0);

    let connection_uuid = Uuid::parse_str("601c7161-97df-42ae-b377-3baf21830d8f").unwrap();
    nb_global.connections = Some(vec![connection_uuid]);

    nb_global.ssl = Some(vec![]);

    let mut external_ids = OvsdbMap::new();
    external_ids.insert("test".to_string(), "bara".to_string());
    nb_global.external_ids = Some(external_ids);

    let mut options = OvsdbMap::new();
    options.insert("name".to_string(), "global".to_string());
    options.insert("northd-backoff-interval-ms".to_string(), "300".to_string());
    options.insert("northd_probe_interval".to_string(), "5000".to_string());
    nb_global.options = Some(options);

    let serialized = nb_global.to_map();

    assert_eq!(serialized.get("name").unwrap().as_str().unwrap(), "global");
    assert!(!serialized.get("ipsec").unwrap().as_bool().unwrap());
    assert_eq!(serialized.get("hv_cfg").unwrap().as_i64().unwrap(), 0);

    let connections_json = serialized.get("connections").unwrap();
    assert!(connections_json.is_array());
    let connections_array = connections_json.as_array().unwrap();
    assert_eq!(connections_array[0].as_str().unwrap(), "uuid");
    assert_eq!(
        connections_array[1].as_str().unwrap(),
        "601c7161-97df-42ae-b377-3baf21830d8f"
    );

    let ssl_json = serialized.get("ssl").unwrap();
    assert!(ssl_json.is_array());
    assert_eq!(ssl_json.as_array().unwrap().len(), 0);

    let external_ids_json = serialized.get("external_ids").unwrap();
    assert!(external_ids_json.is_array());
    assert_eq!(
        external_ids_json.as_array().unwrap()[0].as_str().unwrap(),
        "map"
    );

    let options_json = serialized.get("options").unwrap();
    assert!(options_json.is_array());
    assert_eq!(options_json.as_array().unwrap()[0].as_str().unwrap(), "map");
}

#[test]
fn test_round_trip() {
    let json_str = r#"{
        "connections": ["uuid", "601c7161-97df-42ae-b377-3baf21830d8f"],
        "external_ids": ["map", [["test", "bara"]]],
        "hv_cfg": 0,
        "hv_cfg_timestamp": 0,
        "ipsec": false,
        "name": "global",
        "nb_cfg": 0,
        "nb_cfg_timestamp": 0,
        "options": ["map", [["name", "global"], ["northd-backoff-interval-ms", "300"], ["northd_probe_interval", "5000"]]],
        "sb_cfg": 0,
        "sb_cfg_timestamp": 0,
        "ssl": ["set", []]
    }"#;

    let nb_global = NbGlobal::from_map(&parse(json_str)).unwrap();

    let serialized = to_value(&nb_global.to_map());

    let nb_global2 = NbGlobal::from_map(&from_value(&serialized)).unwrap();

    assert_eq!(nb_global, nb_global2);
}

#[test]
fn test_handle_single_element_set() {
    let json_str = r#"{
        "connections": ["uuid", "601c7161-97df-42ae-b377-3baf21830d8f"],
        "name": "global"
    }"#;

    let nb_global = NbGlobal::from_map(&parse(json_str)).unwrap();

    let connection_uuid = Uuid::parse_str("601c7161-97df-42ae-b377-3baf21830d8f").unwrap();
    assert_eq!(nb_global.connections, Some(vec![connection_uuid]));
}

#[test]
fn test_handle_multiple_element_set() {
    let json_str = r#"{
        "connections": ["set", [
            ["uuid", "601c7161-97df-42ae-b377-3baf21830d8f"],
            ["uuid", "701c7161-97df-42ae-b377-3baf21830d8f"]
        ]],
        "name": "global"
    }"#;

    let nb_global = NbGlobal::from_map(&parse(json_str)).unwrap();

    let uuid1 = Uuid::parse_str("601c7161-97df-42ae-b377-3baf21830d8f").unwrap();
    let uuid2 = Uuid::parse_str("701c7161-97df-42ae-b377-3baf21830d8f").unwrap();
    assert_eq!(nb_global.connections, Some(vec![uuid1, uuid2]));
}

#[test]
fn test_empty_set() {
    let json_str = r#"{
        "ssl": ["set", []],
        "name": "global"
    }"#;

    let nb_global = NbGlobal::from_map(&parse(json_str)).unwrap();

    assert_eq!(nb_global.ssl, Some(vec![]));
}

#[test]
fn test_serialization_single_element_set() {
    let mut nb_global = NbGlobal::new();

    let connection_uuid = Uuid::parse_str("601c7161-97df-42ae-b377-3baf21830d8f").unwrap();
    nb_global.connections = Some(vec![connection_uuid]);

    let serialized = nb_global.to_map();
    let connections_json = serialized.get("connections").unwrap();

    assert!(connections_json.is_array());
    let connections_array = connections_json.as_array().unwrap();
    assert_eq!(connections_array.len(), 2);
    assert_eq!(connections_array[0].as_str().unwrap(), "uuid");
}

#[test]
fn test_serialization_multiple_element_set() {
    let mut nb_global = NbGlobal::new();

    let uuid1 = Uuid::parse_str("601c7161-97df-42ae-b377-3baf21830d8f").unwrap();
    let uuid2 = Uuid::parse_str("701c7161-97df-42ae-b377-3baf21830d8f").unwrap();
    nb_global.connections = Some(vec![uuid1, uuid2]);

    let serialized = nb_global.to_map();
    let connections_json = serialized.get("connections").unwrap();

    assert!(connections_json.is_array());
    let connections_array = connections_json.as_array().unwrap();
    assert_eq!(connections_array[0].as_str().unwrap(), "set");
}

#[test]
fn absent_fields_are_left_out_of_the_map() {
    let mut nb_global = NbGlobal::new();
    nb_global.name = Some("global".to_string());
    let serialized = nb_global.to_map();
    assert!(serialized.get("name").is_some());
    assert!(serialized.get("ipsec").is_none());
    assert!(serialized.get("connections").is_none());
    assert!(serialized.get("_uuid").is_none());
}

#[test]
fn null_in_a_scalar_field_names_the_field() {
    let err = NbGlobal::from_map(&parse(r#"{"name": null}"#)).unwrap_err();
    assert_eq!(err.field, "name");
    let err = NbGlobal::from_map(&parse(r#"{"name": "g", "ipsec": ["map", []]}"#)).unwrap_err();
    assert_eq!(err.field, "ipsec");
}

#[test]
fn row_identity_reads_from_the_tagged_form() {
    let text = r#"{"_uuid": ["uuid", "601c7161-97df-42ae-b377-3baf21830d8f"], "_version": ["uuid", "701c7161-97df-42ae-b377-3baf21830d8f"]}"#;
    let row = NbGlobal::from_map(&parse(text)).unwrap();
    assert_eq!(row._uuid, Uuid::parse_str("601c7161-97df-42ae-b377-3baf21830d8f"));
    assert_eq!(row._version, Uuid::parse_str("701c7161-97df-42ae-b377-3baf21830d8f"));
    let back = NbGlobal::from_map(&row.to_map()).unwrap();
    assert_eq!(back, row);
}

#[test]
fn default_row_is_the_new_row() {
    assert_eq!(NbGlobal::default(), NbGlobal::new());
    assert!(NbGlobal::default().to_map() == Json::Object(vec![]));
}

#[test]
fn null_in_a_plain_field_names_the_field() {
    let map = parse(r#"{"f": null, "g": 3}"#);
    let err = ovsdb::nb_global::read_field::<i64>(&map, "f").unwrap_err();
    assert_eq!(err.field, "f");
    assert_eq!(ovsdb::nb_global::read_field::<i64>(&map, "g").unwrap(), Some(3));
    assert_eq!(ovsdb::nb_global::read_field::<i64>(&map, "h").unwrap(), None);
}
