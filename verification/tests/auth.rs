use brace::auth::model::{parse_uuid, session_step, session_user, session_user_id, CurrentUser, SessionStep};
use brace::auth::model::{bearer_token, Claims, SlimUser, User, UserAuth, SECONDS_PER_DAY};
use brace::auth::util::{get_secret, hash, hash_with_salt, salt};

#[test]
fn bearer_tokens() {
    assert_eq!(bearer_token("Bearer abc.def"), Some("abc.def"));
    assert_eq!(bearer_token("Bearer "), Some(""));
    assert_eq!(bearer_token("Bearer invalidtoken"), Some("invalidtoken"));
    assert_eq!(bearer_token("Bearer a b"), None);
    assert_eq!(bearer_token("bearer abc"), None);
    assert_eq!(bearer_token("Basic abc"), None);
    assert_eq!(bearer_token("Bearer"), None);
    assert_eq!(bearer_token(""), None);
}

#[test]
fn claims_for_an_email() {
    let claims = Claims::with_email("user@domain.test");
    assert_eq!(claims.email, "user@domain.test");
    assert_eq!(claims.iss, "localhost");
    assert_eq!(claims.sub, "auth");
    assert!(claims.exp - claims.iat >= SECONDS_PER_DAY);
    assert!(claims.exp - claims.iat <= SECONDS_PER_DAY + 5);

    let slim = SlimUser::from(claims);
    assert_eq!(slim.email, "user@domain.test");
}

#[test]
fn user_defaults() {
    let user = User::default();
    assert_eq!(user.email, "");
    assert_eq!(user.password, "");
    assert_eq!(uuid::Uuid::from_u128(user.id).get_version_num(), 4);
    let other = User::default();
    assert_ne!(user.id, other.id);
    let copy = user.clone();
    assert_eq!(copy.id, user.id);
    assert_eq!(SlimUser::from(user).email, "");

    let auth = UserAuth::default();
    assert_eq!(auth.email, "");
    assert_eq!(auth.password, "");
}

#[test]
fn salts_are_alphanumeric() {
    let s = salt();
    assert_eq!(s.len(), 32);
    assert!(s.chars().all(|c| c.is_ascii_alphanumeric()));
    assert_ne!(salt(), s);
}

#[test]
fn hashes_are_argon2i_encodings() {
    let h = hash_with_salt("password1", "saltsaltsalt").unwrap();
    assert!(h.starts_with("$argon2i$m=4096,t=3,p=1$"));
    assert_ne!(h, "password1");
    let again = hash_with_salt("password1", "saltsaltsalt").unwrap();
    assert_eq!(h, again);
    let other = hash_with_salt("password2", "saltsaltsalt").unwrap();
    assert_ne!(h, other);

    let enc = argon2rs::verifier::Encoded::from_u8(h.as_bytes()).unwrap();
    assert!(enc.verify(b"password1"));
    assert!(!enc.verify(b"password2"));

    let fresh = hash("password1").unwrap();
    let enc = argon2rs::verifier::Encoded::from_u8(fresh.as_bytes()).unwrap();
    assert!(enc.verify(b"password1"));
}

#[test]
fn secret() {
    assert_eq!(get_secret(), "secret");
}

#[test]
fn sessions_find_their_user() {
    let text = "01234567-89ab-cdef-0123-456789abcdef";
    let id: u128 = 0x0123456789abcdef0123456789abcdef;
    assert_eq!(parse_uuid(text), Some(id));
    assert_eq!(parse_uuid("0123456789ABCDEF0123456789ABCDEF"), Some(id));
    assert_eq!(parse_uuid("not an id"), None);
    assert_eq!(session_user_id(Some(text)), Some(id));
    assert_eq!(session_user_id(None), None);

    assert_eq!(session_step(Some(Some(text)), true), SessionStep::LookUp(id));
    assert_eq!(session_step(Some(Some(text)), false), SessionStep::Anonymous { forget: true });
    assert_eq!(session_step(Some(Some("x")), true), SessionStep::Anonymous { forget: true });
    assert_eq!(session_step(Some(None), true), SessionStep::Anonymous { forget: true });
    assert_eq!(session_step(None, true), SessionStep::Anonymous { forget: false });

    let (user, forget) = session_user(None);
    assert!(matches!(user, CurrentUser::Anonymous));
    assert!(forget);
    let mut u = User::default();
    u.id = id;
    let (user, forget) = session_user(Some(u));
    assert!(matches!(user, CurrentUser::Authenticated(ref found) if found.id == id));
    assert!(!forget);
}
