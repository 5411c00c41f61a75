use brace::config::{format_for_extension, Config, Format};
use brace::value::de::ValueDeserializer;
use brace::value::{Error, Lookup, Table, Value};

fn string_at(table: &Table, key: &str) -> String {
    ValueDeserializer::new(table.lookup(key, Lookup::Get).unwrap()).deserialize_string().unwrap()
}

fn i32_at(table: &Table, key: &str) -> i32 {
    ValueDeserializer::new(table.lookup(key, Lookup::Get).unwrap()).deserialize_i32().unwrap()
}

fn list_of_entry_tables(found: Result<&Value, Error>) -> bool {
    match found {
        Ok(v) => match v.as_array() {
            Some(a) => a.items().iter().all(|item| match item.as_table() {
                Some(t) => t.entries().iter().all(|(_, e)| e.as_entry().is_some()),
                None => false,
            }),
            None => false,
        },
        Err(_) => false,
    }
}

#[test]
fn test_config_nested_array() {
    let mut conf = Config::new();

    conf.set("list.0.0.item", Ok(Value::from("1"))).unwrap();
    conf.set("list.1.0.item", Ok(Value::from("2"))).unwrap();

    assert_eq!(string_at(&conf.0, "list.0.0.item"), "1".to_string());
    let item = conf.0.lookup("list.0.0.item", Lookup::Get).unwrap();
    assert_eq!(ValueDeserializer::new(item).deserialize_u64().unwrap(), 1);
    assert!(list_of_entry_tables(conf.0.lookup("list.0", Lookup::Get)));
    assert!(list_of_entry_tables(conf.0.lookup("list.1", Lookup::Get)));
    assert!(!list_of_entry_tables(conf.0.lookup("list.2", Lookup::Get)));
}

#[test]
fn test_config_chaining() {
    let mut conf = Config::new();

    conf.set("host", Ok(Value::from("127.0.0.1")))
        .unwrap()
        .set("port", Ok(Value::from(80)))
        .unwrap();

    assert_eq!(string_at(&conf.0, "host"), "127.0.0.1".to_string());
    assert_eq!(i32_at(&conf.0, "port"), 80);
}

#[test]
fn test_immutable_config() {
    let mut conf = Config::new();

    conf.set("host", Ok(Value::from("127.0.0.1"))).unwrap();

    let conf = conf.lock();

    let host = ValueDeserializer::new(conf.lookup("host").unwrap()).deserialize_string().unwrap();
    assert_eq!(host, "127.0.0.1".to_string());
}

#[test]
fn test_config_merging() {
    let mut conf1 = Config::new();
    let mut conf2 = Config::new();

    conf1.set("host", Ok(Value::from("127.0.0.1"))).unwrap();
    conf2.set("port", Ok(Value::from(80))).unwrap();
    conf1.merge(&conf2).unwrap();

    assert_eq!(string_at(&conf1.0, "host"), "127.0.0.1".to_string());
    assert_eq!(i32_at(&conf1.0, "port"), 80);
}

#[test]
fn config_nested_table_texts() {
    let mut conf = Config::new();

    conf.set("web.host", Ok(Value::from("127.0.0.1"))).unwrap();
    assert_eq!(string_at(&conf.0, "web.host"), "127.0.0.1".to_string());

    conf.set("web.port", Ok(Value::from("8080"))).unwrap();
    assert_eq!(string_at(&conf.0, "web.port"), "8080".to_string());
    assert_eq!(i32_at(&conf.0, "web.port"), 8080);

    assert!(conf.set("web.address.host", Ok(Value::from("127.0.0.1"))).is_ok());
    let err = conf.set("web.host.address", Ok(Value::from("127.0.0.1"))).unwrap_err();
    assert_eq!(err.0, "cannot insert into entry");
}

#[test]
fn config_merge_default_keeps_own_entries() {
    let mut conf1 = Config::new();
    let mut conf2 = Config::new();

    conf1.set("host", Ok(Value::from("127.0.0.1"))).unwrap();
    conf2.set("host", Ok(Value::from("0.0.0.0"))).unwrap();
    conf2.set("port", Ok(Value::from(80))).unwrap();

    let mut merged = conf1.clone();
    merged.merge(&conf2).unwrap();
    assert_eq!(string_at(&merged.0, "host"), "0.0.0.0");

    conf1.merge_default(&conf2).unwrap();
    assert_eq!(string_at(&conf1.0, "host"), "127.0.0.1");
    assert_eq!(i32_at(&conf1.0, "port"), 80);
}

#[test]
fn config_merge_conflict() {
    let mut conf1 = Config::new();
    let mut conf2 = Config::new();

    conf1.set("web.host", Ok(Value::from("127.0.0.1"))).unwrap();
    conf2.set("web", Ok(Value::from("plain"))).unwrap();

    let err = conf1.merge(&conf2).unwrap_err();
    assert_eq!(err.0, "cannot merge entry with table");
}

#[test]
fn config_set_default_keeps_existing() {
    let mut conf = Config::new();

    conf.set("host", Ok(Value::from("127.0.0.1"))).unwrap();
    conf.set_default("host", Ok(Value::from("0.0.0.0"))).unwrap();
    conf.set_default("port", Ok(Value::from(80))).unwrap();

    assert_eq!(string_at(&conf.0, "host"), "127.0.0.1");
    assert_eq!(i32_at(&conf.0, "port"), 80);
}

#[test]
fn config_set_reports_value_error() {
    let mut conf = Config::new();

    let err = conf.set("unit", Err(Error::custom("unit is not supported"))).unwrap_err();
    assert_eq!(err.0, "unit is not supported");
    assert_eq!(conf.0.len(), 0);
}

#[test]
fn formats_by_extension() {
    assert_eq!(format_for_extension(Some("toml")), Some(Format::Toml));
    assert_eq!(format_for_extension(Some("yml")), Some(Format::Yaml));
    assert_eq!(format_for_extension(Some("yaml")), Some(Format::Yaml));
    assert_eq!(format_for_extension(Some("json")), Some(Format::Json));
    assert_eq!(format_for_extension(Some("ini")), None);
    assert_eq!(format_for_extension(None), None);
}
