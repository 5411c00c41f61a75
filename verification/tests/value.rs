use brace::value::de::ValueDeserializer;
use brace::value::{Array, Entry, Lookup, Table, Value};

fn text(v: &Value, key: &str) -> String {
    let found = v.lookup(key, Lookup::Get).unwrap();
    ValueDeserializer::new(found).deserialize_string().unwrap()
}

fn entries_table(v: &Value) -> bool {
    match v.as_table() {
        Some(t) => t.entries().iter().all(|(_, item)| item.as_entry().is_some()),
        None => false,
    }
}

fn pair(key: &str, value: Value) -> (String, Value) {
    (key.to_string(), value)
}

fn array_of(items: Vec<Value>) -> Value {
    Value::from(Array::from(items))
}

fn table_of(pairs: Vec<(String, Value)>) -> Value {
    Value::from(Table::from(pairs))
}

#[test]
fn test_value() {
    let entry = Value::from("entry");
    let array = array_of(vec![Value::from("array")]);
    let table = table_of(vec![pair("table", Value::from(true))]);

    assert_eq!(ValueDeserializer::new(&entry).deserialize_string().unwrap(), "entry");
    assert_eq!(text(&array, "0"), "array");
    let found = table.lookup("table", Lookup::Get).unwrap();
    assert_eq!(ValueDeserializer::new(found).deserialize_bool().unwrap(), true);
}

#[test]
fn macros_test_array() {
    let array1 = Array::new();
    let array2 = Array::from(vec![Value::array()]);
    let array3 = Array::from(vec![Value::table()]);
    let array4 = Array::from(vec![Value::from("a")]);
    let array5 = Array::from(vec![Value::array(), Value::table(), Value::from("a")]);
    let array6 = Array::from(vec![
        Value::from('a'),
        Value::from("b"),
        array_of(vec![Value::from("c"), Value::from("d")]),
    ]);

    assert_eq!(array1.len(), 0);
    assert_eq!(array2.len(), 1);
    assert_eq!(array3.len(), 1);
    assert_eq!(array4.len(), 1);
    assert_eq!(array5.len(), 3);
    assert_eq!(array6.len(), 3);
}

#[test]
fn macros_test_table() {
    let t = table_of(vec![
        pair("a", Value::from("a")),
        pair("b", Value::from("b")),
        pair("c", Value::table()),
        pair("d", Value::array()),
        pair(
            "e",
            array_of(vec![
                Value::from('f'),
                Value::from("g"),
                array_of(vec![Value::from("h"), Value::from("i"), Value::from(true)]),
            ]),
        ),
        pair(
            "j",
            table_of(vec![
                pair("k", Value::from("l")),
                pair("m", table_of(vec![pair("n", array_of(vec![Value::from("o"), Value::from("p")]))])),
            ]),
        ),
        pair("q", array_of(vec![Value::from("r"), Value::from("s")])),
    ]);

    assert_eq!(text(&t, "a"), "a");
    assert_eq!(text(&t, "b"), "b");
    assert!(t.get_value("c").unwrap().as_table().unwrap().is_empty());
    assert!(t.get_value("d").unwrap().as_array().unwrap().is_empty());
    assert_eq!(t.get_value("e").unwrap().as_array().unwrap().len(), 3);
    assert_eq!(t.get_value("e.2").unwrap().as_array().unwrap().len(), 3);
    assert_eq!(text(&t, "e.2.1"), "i");
    assert_eq!(text(&t, "j.k"), "l");
    assert_eq!(text(&t, "j.m.n.0"), "o");
    assert_eq!(text(&t, "q.0"), "r");
}

#[test]
fn test_boolean() {
    let mut table = Value::table();

    assert!(table.set("true", Ok(Value::from(true))).is_ok());
    assert!(table.set("false", Ok(Value::from(false))).is_ok());
    let t = table.lookup("true", Lookup::Get).unwrap();
    let f = table.lookup("false", Lookup::Get).unwrap();
    assert_eq!(ValueDeserializer::new(t).deserialize_bool().unwrap(), true);
    assert_eq!(ValueDeserializer::new(f).deserialize_bool().unwrap(), false);
}

#[test]
fn test_integer_signed() {
    let mut table = Value::table();

    assert!(table.set("i8", Ok(Value::from(8 as i8))).is_ok());
    assert!(table.set("i16", Ok(Value::from(16 as i16))).is_ok());
    assert!(table.set("i32", Ok(Value::from(32 as i32))).is_ok());
    assert!(table.set("i64", Ok(Value::from(64 as i64))).is_ok());
    assert!(table.set("i128", Ok(Value::from(128 as i128))).is_ok());

    let v = ValueDeserializer::new(table.lookup("i8", Lookup::Get).unwrap());
    assert_eq!(v.deserialize_i8().unwrap(), 8);
    assert_eq!(v.deserialize_i16().unwrap(), 8);
    assert_eq!(v.deserialize_i32().unwrap(), 8);
    assert_eq!(v.deserialize_i64().unwrap(), 8);
    assert_eq!(v.deserialize_i128().unwrap(), 8);
    assert_eq!(v.deserialize_string().unwrap(), "8");
}

#[test]
fn test_integer_unsigned() {
    let mut table = Value::table();

    assert!(table.set("u8", Ok(Value::from(8 as u8))).is_ok());
    assert!(table.set("u16", Ok(Value::from(16 as u16))).is_ok());
    assert!(table.set("u32", Ok(Value::from(32 as u32))).is_ok());
    assert!(table.set("u64", Ok(Value::from(64 as u64))).is_ok());
    assert!(table.set("u128", Ok(Value::from(128 as u128))).is_ok());

    let v = ValueDeserializer::new(table.lookup("u8", Lookup::Get).unwrap());
    assert_eq!(v.deserialize_u8().unwrap(), 8);
    assert_eq!(v.deserialize_u16().unwrap(), 8);
    assert_eq!(v.deserialize_u32().unwrap(), 8);
    assert_eq!(v.deserialize_u64().unwrap(), 8);
    assert_eq!(v.deserialize_u128().unwrap(), 8);
    assert_eq!(v.deserialize_string().unwrap(), "8");
}

#[test]
fn test_text() {
    let mut table = Value::table();

    assert!(table.set("char", Ok(Value::from('c'))).is_ok());
    assert!(table.set("str", Ok(Value::from("str"))).is_ok());
    assert!(table.set("string", Ok(Value::from(String::from("string")))).is_ok());

    let c = ValueDeserializer::new(table.lookup("char", Lookup::Get).unwrap());
    assert_eq!(c.deserialize_char().unwrap(), 'c');
    assert_eq!(c.deserialize_string().unwrap(), "c".to_string());
}

#[test]
fn mod_test_table() {
    let mut table = Value::table();
    let m2 = table_of(vec![pair("g", Value::from("h"))]);
    let m1 = table_of(vec![pair("f", m2)]);

    assert!(table.set("a.b.c", Ok(Value::from("d"))).is_ok());
    assert!(entries_table(table.lookup("a.b", Lookup::Get).unwrap()));
    assert_eq!(text(&table, "a.b.c"), "d");

    assert!(table.set("e", Ok(m1)).is_ok());
    assert!(entries_table(table.lookup("e.f", Lookup::Get).unwrap()));
    let e = table.lookup("e", Lookup::Get).unwrap().as_table().unwrap();
    assert!(e.entries().iter().all(|(_, v)| entries_table(v)));
    assert_eq!(text(&table, "e.f.g"), "h");
}

#[test]
fn mod_test_array() {
    let mut table = Value::table();

    assert!(table.set("item.1", Ok(Value::from("a"))).is_err());
    assert!(table.set("item.0", Ok(Value::from("b"))).is_ok());
    assert!(table.set("item.1", Ok(Value::from("c"))).is_ok());

    let mut array = Value::array();

    assert!(array.set("1", Ok(Value::from("a"))).is_err());
    assert!(array.set("0", Ok(Value::from("b"))).is_ok());
    assert!(array.set("1", Ok(Value::from("c"))).is_ok());
    assert!(array.set("d", Ok(Value::from("d"))).is_err());

    assert!(table.set("array", Ok(array)).is_ok());
    let items = table.lookup("array", Lookup::Get).unwrap().as_array().unwrap();
    assert!(items.items().iter().all(|v| v.as_entry().is_some()));
    assert_eq!(items.len(), 2);
}

#[test]
fn entry_texts() {
    assert_eq!(Entry::from(-128i8).0, "-128");
    assert_eq!(Entry::from(u128::MAX).0, "340282366920938463463374607431768211455");
    assert_eq!(Entry::from(i128::MIN).0, "-170141183460469231731687303715884105728");
    assert_eq!(Entry::from(0u8).0, "0");
    assert_eq!(Entry::from(true).0, "true");
    assert_eq!(Entry::from('é').0, "é");
}

#[test]
fn parse_errors_carry_std_messages() {
    let v = Value::from("300");
    let d = ValueDeserializer::new(&v);
    assert_eq!(d.deserialize_u8().unwrap_err().0, "number too large to fit in target type");
    assert_eq!(d.deserialize_u16().unwrap(), 300);
    let neg = Value::from("-129");
    assert_eq!(
        ValueDeserializer::new(&neg).deserialize_i8().unwrap_err().0,
        "number too small to fit in target type"
    );
    let empty = Value::from("");
    assert_eq!(
        ValueDeserializer::new(&empty).deserialize_i32().unwrap_err().0,
        "cannot parse integer from empty string"
    );
    let bad = Value::from("1x");
    assert_eq!(
        ValueDeserializer::new(&bad).deserialize_u64().unwrap_err().0,
        "invalid digit found in string"
    );
    let plus = Value::from("+7");
    assert_eq!(ValueDeserializer::new(&plus).deserialize_i64().unwrap(), 7);
    let yes = Value::from("yes");
    assert_eq!(
        ValueDeserializer::new(&yes).deserialize_bool().unwrap_err().0,
        "provided string was not `true` or `false`"
    );
    let arr = Value::array();
    assert_eq!(
        ValueDeserializer::new(&arr).deserialize_string().unwrap_err().0,
        "cannot deserialize array variant as string"
    );
}

#[test]
fn lookup_error_messages() {
    let mut t = Value::table();
    t.set("a", Ok(Value::from("x"))).unwrap();
    assert_eq!(t.get_value("b").unwrap_err().0, "missing value for 'b'");
    assert_eq!(t.get_value("a.b").unwrap_err().0, "cannot call `get_value` on entry");
    assert_eq!(t.lookup("a.b", Lookup::Get).unwrap_err().0, "cannot call `get` on entry");
    let a = array_of(vec![Value::from("x")]);
    assert_eq!(a.get_value("3").unwrap_err().0, "missing value for '3'");
    assert_eq!(a.get_value("z").unwrap_err().0, "invalid digit found in string");
}

#[test]
fn write_and_merge_error_messages() {
    let mut e = Value::from("x");
    assert_eq!(e.set("a", Ok(Value::from("1"))).unwrap_err().0, "cannot call `set` on entry variant");
    assert_eq!(e.set_value("a", Value::from("1")).unwrap_err().0, "cannot call `set_value` on entry variant");

    let mut a = Value::array();
    assert_eq!(a.set("2", Ok(Value::from("1"))).unwrap_err().0, "cannot insert item after index");
    a.set("0", Ok(Value::from("1"))).unwrap();
    assert_eq!(a.set("0.b", Ok(Value::from("1"))).unwrap_err().0, "cannot insert into entry");
    assert_eq!(a.set("x", Ok(Value::from("1"))).unwrap_err().0, "invalid digit found in string");

    let mut entry = Value::from("x");
    assert_eq!(entry.merge(&Value::array()).unwrap_err().0, "cannot merge array with entry");
    assert_eq!(entry.merge(&Value::table()).unwrap_err().0, "cannot merge table with entry");
    let mut array = Value::array();
    assert_eq!(array.merge(&Value::from("x")).unwrap_err().0, "cannot merge entry with array");
    assert_eq!(array.merge(&Value::table()).unwrap_err().0, "cannot merge table with array");
    let mut table = Value::table();
    assert_eq!(table.merge(&Value::from("x")).unwrap_err().0, "cannot merge entry with table");
    assert_eq!(table.merge(&Value::array()).unwrap_err().0, "cannot merge array with table");

    let mut kept = Value::from("x");
    kept.merge_default(&Value::from("y")).unwrap();
    assert_eq!(ValueDeserializer::new(&kept).deserialize_string().unwrap(), "x");
    kept.merge(&Value::from("y")).unwrap();
    assert_eq!(ValueDeserializer::new(&kept).deserialize_string().unwrap(), "y");
}

#[test]
fn char_read_errors() {
    let empty = Value::from("");
    assert_eq!(
        ValueDeserializer::new(&empty).deserialize_char().unwrap_err().0,
        "cannot parse char from empty string"
    );
    let long = Value::from("ab");
    assert_eq!(ValueDeserializer::new(&long).deserialize_char().unwrap_err().0, "too many characters in string");
    let t = Value::table();
    assert_eq!(
        ValueDeserializer::new(&t).deserialize_u8().unwrap_err().0,
        "cannot deserialize table variant as u8"
    );
}
