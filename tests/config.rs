use jockey::config::{ConfigError, ConfigValue, OscConfig, OscDataType, SpoutConfig};

fn text(s: &str) -> ConfigValue {
    ConfigValue::Text(s.to_string())
}

fn map(entries: Vec<(&str, ConfigValue)>) -> ConfigValue {
    ConfigValue::Mapping(entries.into_iter().map(|(k, v)| (text(k), v)).collect())
}

fn mapping_of<'a>(c: &'a OscConfig, name: &str) -> Option<&'a jockey::config::OscMapping> {
    c.mappings.iter().find(|(n, _)| n == name).map(|(_, m)| m)
}

#[test]
fn osc_defaults() {
    let c = OscConfig::default();
    assert_eq!(c.port, 9000);
    assert!(c.mappings.is_empty());
    assert_eq!(OscDataType::default(), OscDataType::Float);
    let c = OscConfig::from_yaml(&map(vec![])).unwrap();
    assert_eq!(c.port, 9000);
    assert!(c.mappings.is_empty());
}

#[test]
fn osc_port_and_mappings() {
    let doc = map(vec![
        ("port", ConfigValue::Unsigned(7000)),
        (
            "mappings",
            map(vec![
                ("speed", text("/speed")),
                ("count", map(vec![("address", text("/count")), ("type", text("int"))])),
                ("on", map(vec![("type", text("bool")), ("address", text("/on"))])),
                ("gain", map(vec![("address", text("/gain")), ("type", text("float"))])),
                ("plain", map(vec![("address", text("/plain")), ("type", ConfigValue::Unsigned(3))])),
            ]),
        ),
    ]);
    let c = OscConfig::from_yaml(&doc).unwrap();
    assert_eq!(c.port, 7000);
    assert_eq!(c.mappings.len(), 5);
    let speed = mapping_of(&c, "speed").unwrap();
    assert_eq!((speed.address.as_str(), speed.data_type), ("/speed", OscDataType::Float));
    let count = mapping_of(&c, "count").unwrap();
    assert_eq!((count.address.as_str(), count.data_type), ("/count", OscDataType::Int));
    let on = mapping_of(&c, "on").unwrap();
    assert_eq!((on.address.as_str(), on.data_type), ("/on", OscDataType::Bool));
    assert_eq!(mapping_of(&c, "gain").unwrap().data_type, OscDataType::Float);
    assert_eq!(mapping_of(&c, "plain").unwrap().data_type, OscDataType::Float);
}

#[test]
fn osc_tagged_values_are_looked_through() {
    let doc = ConfigValue::Tagged(Box::new(map(vec![("port", ConfigValue::Tagged(Box::new(ConfigValue::Unsigned(1234))))])));
    assert_eq!(OscConfig::from_yaml(&doc).unwrap().port, 1234);
}

#[test]
fn osc_port_errors() {
    let e = OscConfig::from_yaml(&map(vec![("port", text("x"))])).unwrap_err();
    assert_eq!(e.message(), "OSC port must be a number");
    let e = OscConfig::from_yaml(&map(vec![("port", ConfigValue::Unsigned(65536))])).unwrap_err();
    assert_eq!(e.message(), "OSC port must be between 0 and 65535");
    assert_eq!(OscConfig::from_yaml(&map(vec![("port", ConfigValue::Unsigned(65535))])).unwrap().port, 65535);
}

#[test]
fn osc_mapping_errors() {
    let bad_key = map(vec![("mappings", ConfigValue::Mapping(vec![(ConfigValue::Unsigned(1), text("/a"))]))]);
    assert!(matches!(OscConfig::from_yaml(&bad_key), Err(ConfigError::KeyNotString)));
    let no_addr = map(vec![("mappings", map(vec![("a", map(vec![("type", text("int"))]))]))]);
    let e = OscConfig::from_yaml(&no_addr).unwrap_err();
    assert_eq!(e.message(), "OSC mapping must have 'address' field");
    let unknown = map(vec![("mappings", map(vec![("a", map(vec![("address", text("/a")), ("type", text("vec3"))]))]))]);
    let e = OscConfig::from_yaml(&unknown).unwrap_err();
    assert_eq!(e.message(), "Unknown OSC data type: vec3");
    let bad_value = map(vec![("mappings", map(vec![("a", ConfigValue::Bool(true))]))]);
    let e = OscConfig::from_yaml(&bad_value).unwrap_err();
    assert_eq!(e.message(), "OSC mapping value must be a string or object");
    assert_eq!(ConfigError::KeyNotString.message(), "OSC mapping key must be a string");
}

#[test]
fn osc_mappings_not_a_map_are_ignored() {
    let c = OscConfig::from_yaml(&map(vec![("mappings", ConfigValue::Other)])).unwrap();
    assert!(c.mappings.is_empty());
}

#[test]
fn osc_repeated_name_keeps_last() {
    let doc = map(vec![("mappings", map(vec![("a", text("/one")), ("b", text("/b")), ("a", text("/two"))]))]);
    let c = OscConfig::from_yaml(&doc).unwrap();
    assert_eq!(c.mappings.len(), 2);
    assert_eq!(mapping_of(&c, "a").unwrap().address, "/two");
}

#[test]
fn data_type_names() {
    assert_eq!(OscDataType::from_name(None).unwrap(), OscDataType::Float);
    assert_eq!(OscDataType::from_name(Some("int")).unwrap(), OscDataType::Int);
    assert!(matches!(OscDataType::from_name(Some("Int")), Err(ConfigError::UnknownType(s)) if s == "Int"));
}

#[test]
fn spout_config_defaults_and_values() {
    let d = SpoutConfig::default();
    assert!(!d.enabled);
    assert_eq!(d.sender_name, "Sh4derJockey");
    let c = SpoutConfig::from_yaml(&map(vec![("enabled", ConfigValue::Bool(true)), ("name", text("Out"))])).unwrap();
    assert!(c.enabled);
    assert_eq!(c.sender_name, "Out");
    let c = SpoutConfig::from_yaml(&ConfigValue::Other).unwrap();
    assert!(!c.enabled);
    assert_eq!(c.sender_name, "Sh4derJockey");
}

#[test]
fn spout_config_errors() {
    let e = SpoutConfig::from_yaml(&map(vec![("enabled", text("yes"))])).unwrap_err();
    assert_eq!(e.message(), "Spout 'enabled' must be a boolean");
    let e = SpoutConfig::from_yaml(&map(vec![("name", ConfigValue::Unsigned(3))])).unwrap_err();
    assert_eq!(e.message(), "Spout 'name' must be a string");
}

#[test]
fn osc_mapping_names_are_unique() {
    let doc = map(vec![("mappings", map(vec![("a", text("/1")), ("a", text("/2")), ("b", text("/3")), ("a", text("/4"))]))]);
    let c = OscConfig::from_yaml(&doc).unwrap();
    let mut names: Vec<&str> = c.mappings.iter().map(|(n, _)| n.as_str()).collect();
    assert_eq!(names, vec!["a", "b"]);
    names.dedup();
    assert_eq!(names.len(), 2);
    assert_eq!(mapping_of(&c, "a").unwrap().address, "/4");
}
