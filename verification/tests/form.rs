use std::collections::HashMap;

use brace::form::action::{cancel, submit, Action};
use brace::form::extractor::{UrlEncoded, UrlencodedError, DEFAULT_BODY_LIMIT};
use brace::form::field::{email, hidden, password, select, text, textarea, Field};
use brace::form::state::{FormState, Member};

fn read_body(content_type: &str, length: Option<&str>, chunks: &[&[u8]]) -> Result<Vec<u8>, UrlencodedError> {
    let mut reader = UrlEncoded::new(content_type, Some("UTF-8"), length.map(Some));
    reader.start()?;
    for chunk in chunks {
        reader.push_chunk(chunk)?;
    }
    Ok(reader.body)
}

#[test]
fn test_urlencoded_error() {
    let mut info = UrlEncoded::new("application/x-www-form-urlencoded", Some("UTF-8"), Some(Some("xxxx")));
    assert_eq!(info.start().unwrap_err(), UrlencodedError::UnknownLength);

    let mut info = UrlEncoded::new("application/x-www-form-urlencoded", Some("UTF-8"), Some(Some("1000000")));
    assert_eq!(info.start().unwrap_err(), UrlencodedError::Overflow);

    let mut info = UrlEncoded::new("text/plain", Some("UTF-8"), Some(Some("10")));
    assert_eq!(info.start().unwrap_err(), UrlencodedError::ContentType);
}

#[test]
fn urlencoded_body_is_read_and_parsed() {
    let body = b"hello=world&world[hello]=universe";
    let read = read_body("application/x-www-form-urlencoded", Some("33"), &[&body[..10], &body[10..]]).unwrap();
    assert_eq!(read, body.to_vec());

    let parsed: HashMap<String, serde_json::Value> = serde_qs::from_bytes(&read).unwrap();
    assert_eq!(parsed["hello"], "world");
    assert_eq!(parsed["world"]["hello"], "universe");
}

#[test]
fn urlencoded_content_type_is_compared_in_lowercase() {
    let r = UrlEncoded::new("Application/X-WWW-Form-Urlencoded", Some("UTF-8"), None);
    assert_eq!(r.err, None);
    assert_eq!(r.limit, DEFAULT_BODY_LIMIT);
    let r = UrlEncoded::new("application/x-www-form-urlencoded; charset=utf-8", Some("UTF-8"), None);
    assert_eq!(r.err, Some(UrlencodedError::ContentType));
    let r = UrlEncoded::new("application/x-www-form-urlencoded", None, None);
    assert_eq!(r.err, Some(UrlencodedError::ContentType));
    let r = UrlEncoded::new("application/x-www-form-urlencoded", Some("UTF-8"), Some(None));
    assert_eq!(r.err, Some(UrlencodedError::UnknownLength));
}

#[test]
fn urlencoded_limit_applies_to_chunks() {
    let mut r = UrlEncoded::new("application/x-www-form-urlencoded", Some("UTF-8"), None).limit(8);
    assert!(r.start().is_ok());
    assert!(r.push_chunk(b"abcde").is_ok());
    assert_eq!(r.push_chunk(b"fghij").unwrap_err(), UrlencodedError::Overflow);
    assert_eq!(r.body, b"abcde".to_vec());
    assert!(r.push_chunk(b"fgh").is_ok());
    assert_eq!(r.body, b"abcdefgh".to_vec());

    let mut r = UrlEncoded::new("application/x-www-form-urlencoded", Some("UTF-8"), Some(Some("9"))).limit(8);
    assert_eq!(r.start().unwrap_err(), UrlencodedError::Overflow);
    let mut r = UrlEncoded::new("application/x-www-form-urlencoded", Some("UTF-8"), Some(Some("8"))).limit(8);
    assert!(r.start().is_ok());
    assert_eq!(r.length, None);
}

#[test]
fn fields_and_actions() {
    let t = text("name").label("Name").description("Your name").placeholder("Jane").value("x");
    assert_eq!(t.name, "name");
    assert_eq!(t.value, "x");
    assert_eq!(t.label.as_deref(), Some("Name"));
    assert_eq!(t.description.as_deref(), Some("Your name"));
    assert_eq!(t.placeholder.as_deref(), Some("Jane"));

    let h = hidden("id").value("7");
    assert_eq!(h.value, "7");
    let ta = textarea("body");
    assert_eq!(ta.value, "");
    assert!(ta.label.is_none());
    let e = email("email").label("Email");
    assert_eq!(e.label.as_deref(), Some("Email"));
    let p = password("password");
    assert_eq!(p.name, "password");
    let s = select("choice");
    assert!(s.options.is_empty());

    match Field::from(h) {
        Field::Hidden(f) => assert_eq!(f.name, "id"),
        _ => panic!("expected a hidden field"),
    }

    let sub = submit("/save").label("Save").weight(3);
    assert_eq!(sub.label, "Save");
    assert_eq!(sub.url, "/save");
    assert_eq!(sub.weight, 3);
    let can = cancel("/");
    assert_eq!(can.label, "Cancel");
    match Action::from(can) {
        Action::Cancel(c) => assert_eq!(c.url, "/"),
        _ => panic!("expected a cancel action"),
    }
}

#[test]
fn form_state_lookup() {
    let empty = FormState::new();
    assert_eq!(empty.get("email").unwrap_err().0, "form state does not contain key email");

    let state = FormState::Object(vec![
        ("email".to_string(), Member::Text("a@b.c".to_string())),
        ("id".to_string(), Member::Other(serde_json::Value::from(5))),
    ]);
    assert!(matches!(state.get("email").unwrap(), Member::Text(t) if t == "a@b.c"));
    assert!(matches!(state.get("id").unwrap(), Member::Other(v) if v == &serde_json::Value::from(5)));
    assert_eq!(state.get("name").unwrap_err().0, "form state does not contain key name");
}

use brace::auth::form::{CreateForm, LoginForm, UpdateForm, UserForm};
use brace::auth::model::User;
use brace::form::form::Form;

struct FormStateValue {
    value: String,
}

fn build_form_without_state(mut form: Form<()>) -> Form<()> {
    form.insert(Field::from(hidden("field").value("value")));
    form.action(Action::from(submit("submit")));
    form
}

fn build_form_with_state(mut form: Form<FormStateValue>) -> Form<FormStateValue> {
    let value = form.state().value.clone();
    form.insert(Field::from(hidden("field").value(&value)));
    form.action(Action::from(submit("submit")));
    form
}

#[test]
fn test_form_build_without_state() {
    let form = Form::new(());

    let form = build_form_without_state(form);

    assert_eq!(form.fields.len(), 1);
    assert_eq!(form.actions.len(), 1);
}

#[test]
fn test_form_build_with_state() {
    let state = FormStateValue { value: "Hello".to_owned() };
    let form = Form::new(state);

    let form = build_form_with_state(form);

    assert_eq!(form.fields.len(), 1);
    assert_eq!(form.actions.len(), 1);
    match &form.fields[0] {
        Field::Hidden(h) => assert_eq!(h.value, "Hello"),
        _ => panic!("expected a hidden field"),
    }
}

fn object(members: &[(&str, serde_json::Value)]) -> FormState {
    FormState::Object(
        members
            .iter()
            .map(|(k, v)| match v {
                serde_json::Value::String(t) => (k.to_string(), Member::Text(t.clone())),
                other => (k.to_string(), Member::Other(other.clone())),
            })
            .collect(),
    )
}

fn is_uuid_text(s: &str) -> bool {
    s.len() == 36
        && s.char_indices().all(|(i, c)| {
            if i == 8 || i == 13 || i == 18 || i == 23 {
                c == '-'
            } else {
                c.is_ascii_digit() || ('a'..='f').contains(&c)
            }
        })
}

#[test]
fn login_form_rows() {
    let state = object(&[("email", serde_json::Value::String("a@b.c".to_string()))]);
    let form = LoginForm.build(Form::new(state)).unwrap();
    assert_eq!(form.fields.len(), 3);
    match &form.fields[0] {
        Field::Hidden(h) => {
            assert_eq!(h.name, "id");
            assert!(is_uuid_text(&h.value));
        }
        _ => panic!("expected the id"),
    }
    match &form.fields[1] {
        Field::Email(e) => {
            assert_eq!(e.value, "a@b.c");
            assert_eq!(e.label.as_deref(), Some("Email"));
        }
        _ => panic!("expected the email"),
    }
    assert!(matches!(&form.fields[2], Field::Password(p) if p.name == "password"));
    assert_eq!(form.actions.len(), 2);

    let err = LoginForm.build(Form::new(FormState::new())).unwrap_err();
    assert_eq!(err.0, "form state does not contain key email");
    let err = LoginForm.build(Form::new(object(&[("email", serde_json::Value::from(3))]))).unwrap_err();
    assert!(err.0.contains("expected a string"));
}

#[test]
fn user_form_rows() {
    let state = object(&[
        ("id", serde_json::Value::String("0f".to_string())),
        ("email", serde_json::Value::String("a@b.c".to_string())),
        ("created", serde_json::Value::String("1970-01-02T00:01".to_string())),
    ]);
    let form = UserForm.build(Form::new(state)).unwrap();
    assert_eq!(form.fields.len(), 5);
    assert!(matches!(&form.fields[0], Field::Hidden(h) if h.name == "id" && h.value == "0f"));
    assert!(matches!(&form.fields[1], Field::Email(e) if e.value == "a@b.c"));
    match &form.fields[3] {
        Field::Datetime(d) => {
            assert_eq!(d.name, "created");
            assert_eq!(d.value.seconds, 86_460);
            assert_eq!(d.value.nanoseconds, 0);
            assert_eq!(d.description.as_deref(), Some("The date/time of when the user was first created."));
        }
        _ => panic!("expected the creation time"),
    }
    assert_eq!(form.actions.len(), 2);

    let err = UserForm.build(Form::new(object(&[("email", serde_json::Value::Null)]))).unwrap_err();
    assert_eq!(err.0, "form state does not contain key id");
    let bad_time = object(&[
        ("id", serde_json::Value::String("0f".to_string())),
        ("email", serde_json::Value::String("a@b.c".to_string())),
        ("created", serde_json::Value::String("yesterday".to_string())),
    ]);
    assert!(UserForm.build(Form::new(bad_time)).is_err());
}

#[test]
fn create_and_update_form_rows() {
    let mut form = Form::new(());
    CreateForm.build(&mut form).unwrap();
    assert_eq!(form.fields.len(), 5);
    assert!(form.actions.is_empty());
    assert!(matches!(&form.fields[1], Field::Text(t) if t.name == "email" && t.value.is_empty()));

    let mut user = User::default();
    user.email = "u@d.t".to_string();
    let id = uuid::Uuid::from_u128(user.id).to_string();
    let created = user.created;
    let mut form = Form::new(user);
    UpdateForm.build(&mut form).unwrap();
    assert_eq!(form.fields.len(), 5);
    match &form.fields[0] {
        Field::Hidden(h) => assert_eq!(h.value, id),
        _ => panic!("expected the id"),
    }
    match &form.fields[1] {
        Field::Email(e) => assert_eq!(e.value, "u@d.t"),
        _ => panic!("expected the email"),
    }
    match &form.fields[3] {
        Field::Datetime(d) => assert_eq!(d.value, created),
        _ => panic!("expected the creation time"),
    }
}

#[test]
fn update_form_writes_the_user_id() {
    let mut user = User::default();
    user.id = 0x0123_4567_89ab_cdef_0123_4567_89ab_cdef;
    let mut form = Form::new(user);
    UpdateForm.build(&mut form).unwrap();
    match &form.fields[0] {
        Field::Hidden(h) => assert_eq!(h.value, "01234567-89ab-cdef-0123-456789abcdef"),
        _ => panic!("expected the id"),
    }
}

#[test]
fn urlencoded_body_is_decoded_from_its_charset() {
    let mut r = UrlEncoded::new("application/x-www-form-urlencoded", Some("UTF-8"), None);
    r.start().unwrap();
    r.push_chunk(b"a=b").unwrap();
    assert_eq!(r.body_text(), Ok(None));

    let mut r = UrlEncoded::new("application/x-www-form-urlencoded", Some("windows-1252"), None);
    r.start().unwrap();
    r.push_chunk(b"name=caf\xe9").unwrap();
    assert_eq!(r.body_text(), Ok(Some("name=caf\u{e9}".to_string())));

    let mut r = UrlEncoded::new("application/x-www-form-urlencoded", Some("Shift_JIS"), None);
    r.start().unwrap();
    r.push_chunk(b"a=\x82").unwrap();
    assert_eq!(r.body_text(), Err(UrlencodedError::Parse));

    let mut r = UrlEncoded::new("application/x-www-form-urlencoded", Some("no such charset"), None);
    r.start().unwrap();
    r.push_chunk(b"a=b").unwrap();
    assert_eq!(r.body_text(), Err(UrlencodedError::Parse));
}

#[test]
fn form_state_members_read_as_serde_json_reads_them() {
    let state = FormState::Object(vec![(
        "email".to_string(),
        Member::Other(serde_json::Value::String("x@y.z".to_string())),
    )]);
    let form = LoginForm.build(Form::new(state)).unwrap();
    assert!(matches!(&form.fields[1], Field::Email(e) if e.value == "x@y.z"));

    let err = LoginForm.build(Form::new(object(&[("email", serde_json::Value::from(3))]))).unwrap_err();
    assert_eq!(err.0, "invalid type: integer `3`, expected a string");
}
