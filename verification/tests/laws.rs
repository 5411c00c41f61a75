use brace::value::de::ValueDeserializer;
use brace::value::{Array, Table, Value};

fn text_of(v: &Value) -> String {
    ValueDeserializer::new(v).deserialize_string().unwrap()
}

fn texts(items: &Array) -> Vec<String> {
    items.items().iter().map(text_of).collect()
}

#[test]
fn reading_back_what_set_stored() {
    let mut v = Value::table();
    v.set("a.b.c", Ok(Value::from("x"))).unwrap();
    v.set("list.0", Ok(Value::from("y"))).unwrap();
    assert_eq!(text_of(v.get_value("a.b.c").unwrap()), "x");
    assert_eq!(text_of(v.get_value("list.0").unwrap()), "y");
    v.set("a.b.c", Ok(Value::from("z"))).unwrap();
    assert_eq!(text_of(v.get_value("a.b.c").unwrap()), "z");
}

#[test]
fn reading_back_what_set_value_stored() {
    let mut v = Value::table();
    v.set_value("a.b", Value::from("x")).unwrap();
    v.set_value("c", Value::from("y")).unwrap();
    assert_eq!(text_of(v.get_value("a.b").unwrap()), "x");
    assert_eq!(text_of(v.get_value("c").unwrap()), "y");

    // With three segments the value lands elsewhere.
    v.set_value("a.q.r", Value::from("w")).unwrap();
    assert!(v.get_value("a.q.r").is_err());
    assert_eq!(text_of(v.get_value("a.q").unwrap()), "w");
    v.set_value("n.q.r", Value::from("u")).unwrap();
    assert_eq!(text_of(v.get_value("n.qr").unwrap()), "u");
}

#[test]
fn tables_never_hold_a_key_twice() {
    let mut t = Table::new();
    t.set("k", Ok(Value::from("1"))).unwrap();
    t.set("k", Ok(Value::from("2"))).unwrap();
    t.set_value("k", Value::from("3")).unwrap();
    assert_eq!(t.len(), 1);

    let mut other = Table::new();
    other.set("k", Ok(Value::from("4"))).unwrap();
    other.set("j", Ok(Value::from("5"))).unwrap();
    t.merge(&other).unwrap();
    assert_eq!(t.len(), 2);
}

#[test]
fn merging_tables_key_by_key() {
    let mut a = Table::new();
    a.set("host", Ok(Value::from("127.0.0.1"))).unwrap();
    a.set("web.port", Ok(Value::from("80"))).unwrap();
    let mut b = Table::new();
    b.set("web.port", Ok(Value::from("8080"))).unwrap();
    b.set("web.tls", Ok(Value::from("true"))).unwrap();
    b.set("name", Ok(Value::from("site"))).unwrap();

    let mut merged = a.copy();
    merged.merge(&b).unwrap();
    assert_eq!(text_of(merged.get_value("host").unwrap()), "127.0.0.1");
    assert_eq!(text_of(merged.get_value("web.port").unwrap()), "8080");
    assert_eq!(text_of(merged.get_value("web.tls").unwrap()), "true");
    assert_eq!(text_of(merged.get_value("name").unwrap()), "site");

    let mut kept = a.copy();
    kept.merge_default(&b).unwrap();
    assert_eq!(text_of(kept.get_value("web.port").unwrap()), "80");
    assert_eq!(text_of(kept.get_value("web.tls").unwrap()), "true");
}

#[test]
fn merging_with_empty_tables() {
    let mut a = Table::new();
    a.set("x", Ok(Value::from("1"))).unwrap();
    let before = a.len();
    a.merge(&Table::new()).unwrap();
    assert_eq!(a.len(), before);
    assert_eq!(text_of(a.get_value("x").unwrap()), "1");

    let mut empty = Table::new();
    empty.merge(&a).unwrap();
    assert_eq!(empty.len(), 1);
    assert_eq!(text_of(empty.get_value("x").unwrap()), "1");
}

#[test]
fn merging_arrays_position_by_position() {
    let mut a = Array::from(vec![Value::from("a"), Value::from("b"), Value::from("c")]);
    let b = Array::from(vec![Value::from("x")]);
    a.merge(&b).unwrap();
    assert_eq!(texts(&a), vec!["x", "b", "c"]);

    let mut short = Array::from(vec![Value::from("a")]);
    let long = Array::from(vec![Value::from("x"), Value::from("y")]);
    short.merge_default(&long).unwrap();
    assert_eq!(texts(&short), vec!["a", "y"]);
}

#[test]
fn set_default_only_fills_gaps() {
    let mut v = Value::table();
    v.set("a", Ok(Value::from("1"))).unwrap();
    let mut t = match v {
        Value::Table(t) => t,
        _ => unreachable!(),
    };
    t.set_default("a", Ok(Value::from("2"))).unwrap();
    t.set_default("b", Ok(Value::from("3"))).unwrap();
    t.set_value_default("a", Value::from("4")).unwrap();
    assert_eq!(text_of(t.get_value("a").unwrap()), "1");
    assert_eq!(text_of(t.get_value("b").unwrap()), "3");
}

#[test]
fn tables_from_pairs_keep_one_value_per_key() {
    let t = Table::from(vec![
        ("a".to_string(), Value::from("1")),
        ("b".to_string(), Value::from("2")),
        ("a".to_string(), Value::from("3")),
    ]);
    assert_eq!(t.len(), 2);
    assert_eq!(t.entries()[0].0, "a");
    assert_eq!(text_of(t.get_value("a").unwrap()), "3");
    assert_eq!(text_of(t.get_value("b").unwrap()), "2");
}

#[test]
fn integers_read_back_as_stored() {
    let min = Value::from(i128::MIN);
    assert_eq!(ValueDeserializer::new(&min).deserialize_i128().unwrap(), i128::MIN);
    let max = Value::from(u128::MAX);
    assert_eq!(ValueDeserializer::new(&max).deserialize_u128().unwrap(), u128::MAX);
    let small = Value::from(-5i8);
    let d = ValueDeserializer::new(&small);
    assert_eq!(d.deserialize_i8().unwrap(), -5);
    assert_eq!(d.deserialize_i64().unwrap(), -5);
    assert!(d.deserialize_u64().is_err());
    let wide = Value::from(70_000u32);
    assert!(ValueDeserializer::new(&wide).deserialize_u16().is_err());
    assert_eq!(ValueDeserializer::new(&wide).deserialize_i32().unwrap(), 70_000);
}

#[test]
fn booleans_and_characters_read_back_as_stored() {
    for b in [true, false] {
        let v = Value::from(b);
        assert_eq!(ValueDeserializer::new(&v).deserialize_bool().unwrap(), b);
    }
    for c in ['a', 'é', '😀', '.'] {
        let v = Value::from(c);
        assert_eq!(ValueDeserializer::new(&v).deserialize_char().unwrap(), c);
    }
}

#[test]
fn writes_leave_other_keys_alone() {
    let mut v = Value::table();
    v.set("b.c", Ok(Value::from("1"))).unwrap();
    v.set("d", Ok(Value::from("2"))).unwrap();
    v.set("a.x", Ok(Value::from("3"))).unwrap();
    v.set_value("e.f", Value::from("4")).unwrap();
    assert_eq!(text_of(v.get_value("b.c").unwrap()), "1");
    assert_eq!(text_of(v.get_value("d").unwrap()), "2");
    assert_eq!(text_of(v.get_value("a.x").unwrap()), "3");
    assert_eq!(v.get_value("z").unwrap_err().0, "missing value for 'z'");
}

#[test]
fn merging_with_itself_changes_nothing() {
    let mut t = Table::new();
    t.set("a.b", Ok(Value::from("1"))).unwrap();
    t.set("list.0", Ok(Value::from("x"))).unwrap();
    let same = t.copy();
    t.merge(&same).unwrap();
    assert_eq!(t.len(), 2);
    assert_eq!(text_of(t.get_value("a.b").unwrap()), "1");
    assert_eq!(text_of(t.get_value("list.0").unwrap()), "x");
    assert_eq!(t.get_value("list").unwrap().as_array().unwrap().len(), 1);
}

#[test]
fn merging_a_value_or_an_array_with_itself_changes_nothing() {
    let mut v = Value::table();
    v.set("a.0", Ok(Value::from("1"))).unwrap();
    v.set("a.1.k", Ok(Value::from("2"))).unwrap();
    let same = v.copy();
    v.merge(&same).unwrap();
    assert_eq!(text_of(v.get_value("a.0").unwrap()), "1");
    assert_eq!(text_of(v.get_value("a.1.k").unwrap()), "2");
    assert_eq!(v.get_value("a").unwrap().as_array().unwrap().len(), 2);

    let mut a = Array::from(vec![Value::from("x"), Value::from("y")]);
    let copy = a.copy();
    a.merge_default(&copy).unwrap();
    assert_eq!(texts(&a), vec!["x".to_string(), "y".to_string()]);
}

#[test]
fn merges_succeed_when_every_shared_key_merges() {
    let mut a = Table::new();
    a.set("x", Ok(Value::from("1"))).unwrap();
    a.set("t.k", Ok(Value::from("2"))).unwrap();
    let mut b = Table::new();
    b.set("x", Ok(Value::from("3"))).unwrap();
    b.set("t.j", Ok(Value::from("4"))).unwrap();
    b.set("y", Ok(Value::from("5"))).unwrap();
    assert!(a.merge(&b).is_ok());

    let mut c = Table::new();
    c.set("x.k", Ok(Value::from("6"))).unwrap();
    assert_eq!(a.merge(&c).unwrap_err().0, "cannot merge table with entry");

    let mut xs = Array::from(vec![Value::from("a"), Value::table()]);
    let ys = Array::from(vec![Value::from("b"), Value::table(), Value::from("c")]);
    assert!(xs.merge(&ys).is_ok());
    assert_eq!(xs.len(), 3);
}
