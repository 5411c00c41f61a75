//! The forms of the user pages: which fields and buttons each has, with
//! which labels, descriptions and values.
use vstd::prelude::*;

use crate::auth::model::{is_v4, new_uuid, uuid_hex, uuid_text, User};
use crate::form::action::{cancel, submit, Action};
use crate::form::field::{datetime, email, hidden, password, text, Field};
use crate::form::form::Form;
use crate::form::state::{first_member, missing_state_message, FormState, Member};
use crate::time::{timestamp_in_range, utc_now, DateTimeUtc};
use crate::value::Error;
use serde_json::Value as JsonValue;

verus! {

/// The form that creates a user.
#[derive(Debug, Clone, Copy)]
pub struct CreateForm;

/// The form a user logs in with.
#[derive(Debug, Clone, Copy)]
pub struct LoginForm;

/// The form that updates a user, filled from the user's record.
#[derive(Debug, Clone, Copy)]
pub struct UpdateForm;

/// The form that edits a user, filled from submitted data.
#[derive(Debug, Clone, Copy)]
pub struct UserForm;

// ---------------------------------------------------------------------------
// Outside calls
// ---------------------------------------------------------------------------

/// What serde_json's `from_value::<String>` gives for `v`: the string it
/// holds, or the message of serde_json's error when it holds something
/// else.
pub uninterp spec fn json_string(v: JsonValue) -> Result<Seq<char>, Seq<char>>;

/// `serde_json::from_value::<String>(v)`, with its error written out as
/// text (see `json_string`).
#[verifier::external_body]
fn read_json_string(v: &JsonValue) -> (r: Result<String, String>)
    ensures
        match r {
            Ok(s) => json_string(*v) == Ok::<Seq<char>, Seq<char>>(s@),
            Err(m) => json_string(*v) == Err::<Seq<char>, Seq<char>>(m@),
        },
{
    serde_json::from_value::<String>(v.clone()).map_err(|e| e.to_string())
}

/// What chrono gives for `NaiveDateTime::parse_from_str(text,
/// "%Y-%m-%dT%H:%M")`, taken as a time in UTC: the seconds since 1970 and
/// the nanoseconds past them, or the message of chrono's error.
pub uninterp spec fn minute_datetime(text: Seq<char>) -> Result<(int, int), Seq<char>>;

/// chrono's `NaiveDateTime::parse_from_str(text, "%Y-%m-%dT%H:%M")`, taken
/// as a time in UTC (see `minute_datetime`).
#[verifier::external_body]
fn parse_minute_datetime(text: &str) -> (r: Result<DateTimeUtc, String>)
    ensures
        match r {
            Ok(t) => minute_datetime(text@) == Ok::<(int, int), Seq<char>>(
                (t.seconds as int, t.nanoseconds as int),
            ),
            Err(m) => minute_datetime(text@) == Err::<(int, int), Seq<char>>(m@),
        },
{
    match chrono::NaiveDateTime::parse_from_str(text, "%Y-%m-%dT%H:%M") {
        Ok(dt) => {
            let utc = dt.and_utc();
            Ok(DateTimeUtc { seconds: utc.timestamp(), nanoseconds: utc.timestamp_subsec_nanos() })
        },
        Err(e) => Err(e.to_string()),
    }
}

// ---------------------------------------------------------------------------
// The rows of a form
// ---------------------------------------------------------------------------

/// `after` is `before` with `added` more items at the end.
pub open spec fn extends<T>(before: Seq<T>, after: Seq<T>, added: int) -> bool {
    &&& after.len() == before.len() + added
    &&& forall|i: int| 0 <= i < before.len() ==> after[i] == before[i]
}

/// `o` holds the text `t`.
pub open spec fn has_text(o: Option<String>, t: Seq<char>) -> bool {
    o matches Some(s) && s@ == t
}

/// A hidden field called `id` holding `value`.
pub open spec fn id_row(f: Field, value: Seq<char>) -> bool {
    f matches Field::Hidden(h) && h.name@ == "id"@ && h.value@ == value
}

/// The description of the email row of the user forms.
pub open spec fn email_description() -> Seq<char> {
    "The email address of the user."@
}

/// The description of the password row of the user forms.
pub open spec fn password_description() -> Seq<char> {
    "The password of the user."@
}

/// The description of the creation time row of the user forms.
pub open spec fn created_description() -> Seq<char> {
    "The date/time of when the user was first created."@
}

/// The description of the update time row of the user forms.
pub open spec fn updated_description() -> Seq<char> {
    "The date/time of when the user was last updated."@
}

/// An email field called `email`, labelled "Email", holding `value`, with
/// the given description or none.
pub open spec fn email_row(f: Field, described: bool, value: Seq<char>) -> bool {
    f matches Field::Email(e) && e.name@ == "email"@ && has_text(e.label, "Email"@) && (if described {
        has_text(e.description, email_description())
    } else {
        e.description is None
    }) && e.placeholder is None && e.value@ == value
}

/// A password field called `password`, labelled "Password", empty, with
/// the description of the user forms or none.
pub open spec fn password_row(f: Field, described: bool) -> bool {
    f matches Field::Password(p) && p.name@ == "password"@ && has_text(p.label, "Password"@) && (
    if described {
        has_text(p.description, password_description())
    } else {
        p.description is None
    }) && p.placeholder is None && p.value@ == ""@
}

/// An empty text field called `name`, with the given label and description.
pub open spec fn text_row(f: Field, name: Seq<char>, label: Seq<char>, description: Seq<char>) -> bool {
    f matches Field::Text(t) && t.name@ == name && has_text(t.label, label) && has_text(
        t.description,
        description,
    ) && t.placeholder is None && t.value@ == ""@
}

/// A date and time field called `name`, with the given label and
/// description, holding `value`.
pub open spec fn datetime_row(
    f: Field,
    name: Seq<char>,
    label: Seq<char>,
    description: Seq<char>,
    value: DateTimeUtc,
) -> bool {
    f matches Field::Datetime(d) && d.name@ == name && has_text(d.label, label) && has_text(
        d.description,
        description,
    ) && d.value == value
}

/// The creation and update time rows of the user forms, at `i` and `i + 1`.
pub open spec fn time_rows(fields: Seq<Field>, i: int, created: DateTimeUtc, updated: DateTimeUtc) -> bool {
    &&& datetime_row(fields[i], "created"@, "Created"@, created_description(), created)
    &&& datetime_row(fields[i + 1], "updated"@, "Updated"@, updated_description(), updated)
}

/// `after` is `before` with a submit button to `""` and a cancel button to
/// `"/"` added.
pub open spec fn submit_and_cancel(before: Seq<Action>, after: Seq<Action>) -> bool {
    let n = before.len() as int;
    &&& extends(before, after, 2)
    &&& after[n] matches Action::Submit(s) && s.url@ == ""@ && s.label@ == "Submit"@ && s.name is None
        && s.weight == 0
    &&& after[n + 1] matches Action::Cancel(c) && c.url@ == "/"@ && c.label@ == "Cancel"@ && c.weight
        == 0
}

/// The login form's rows added to `before`: the hidden `id`, the `email`
/// (holding `email`) and the `password`, then submit and cancel buttons.
pub open spec fn login_filled(before: Form<FormState>, after: Form<FormState>, id: Seq<char>, email: Seq<char>) -> bool {
    let n = before.fields@.len() as int;
    &&& after.state == before.state
    &&& extends(before.fields@, after.fields@, 3)
    &&& id_row(after.fields@[n], id)
    &&& email_row(after.fields@[n + 1], false, email)
    &&& password_row(after.fields@[n + 2], false)
    &&& submit_and_cancel(before.actions@, after.actions@)
}

/// The user form's rows added to `before`: the hidden `id`, the described
/// `email` and `password`, the creation and update times, then submit and
/// cancel buttons.
pub open spec fn user_filled(
    before: Form<FormState>,
    after: Form<FormState>,
    id: Seq<char>,
    email: Seq<char>,
    created: DateTimeUtc,
    updated: DateTimeUtc,
) -> bool {
    let n = before.fields@.len() as int;
    &&& after.state == before.state
    &&& extends(before.fields@, after.fields@, 5)
    &&& id_row(after.fields@[n], id)
    &&& email_row(after.fields@[n + 1], true, email)
    &&& password_row(after.fields@[n + 2], true)
    &&& time_rows(after.fields@, n + 3, created, updated)
    &&& submit_and_cancel(before.actions@, after.actions@)
}

/// The creation form's rows added to `before`: the hidden `id`, empty text
/// fields for the email and the password, and the creation and update
/// times.  No buttons.
pub open spec fn create_filled(
    before: Form<()>,
    after: Form<()>,
    id: Seq<char>,
    created: DateTimeUtc,
    updated: DateTimeUtc,
) -> bool {
    let n = before.fields@.len() as int;
    &&& extends(before.fields@, after.fields@, 5)
    &&& after.actions@ == before.actions@
    &&& id_row(after.fields@[n], id)
    &&& text_row(after.fields@[n + 1], "email"@, "Email"@, email_description())
    &&& text_row(after.fields@[n + 2], "password"@, "Password"@, password_description())
    &&& time_rows(after.fields@, n + 3, created, updated)
}

/// The update form's rows added to `before`, filled from the user in its
/// state: the hidden `id`, the described `email` holding the user's email
/// and the `password`, the user's creation time and the update time.  No
/// buttons.
pub open spec fn update_filled(before: Form<User>, after: Form<User>, id: Seq<char>, updated: DateTimeUtc) -> bool {
    let n = before.fields@.len() as int;
    &&& after.state == before.state
    &&& extends(before.fields@, after.fields@, 5)
    &&& after.actions@ == before.actions@
    &&& id_row(after.fields@[n], id)
    &&& email_row(after.fields@[n + 1], true, before.state.email@)
    &&& password_row(after.fields@[n + 2], true)
    &&& time_rows(after.fields@, n + 3, before.state.created, updated)
}

/// The update form's time rows hold the user's creation time and the
/// update time it was filled with: row `n + 3` is the `created` field with
/// the time in the user record, and row `n + 4` the `updated` field with
/// the `updated` argument, whatever the record says of its own update.
pub proof fn law_update_form_times(before: Form<User>, after: Form<User>, id: Seq<char>, updated: DateTimeUtc)
    requires
        update_filled(before, after, id, updated),
    ensures
        after.fields@[before.fields@.len() as int + 3] matches Field::Datetime(c) && c.name@ == "created"@
            && c.value == before.state.created,
        after.fields@[before.fields@.len() as int + 4] matches Field::Datetime(u) && u.name@ == "updated"@
            && u.value == updated,
{
}

/// The user form's rows hold what it was filled with: the id in row `n`,
/// the email in row `n + 1`, and the creation and update times given in
/// rows `n + 3` and `n + 4`.
pub proof fn law_user_form_rows(
    before: Form<FormState>,
    after: Form<FormState>,
    id: Seq<char>,
    email_value: Seq<char>,
    created: DateTimeUtc,
    updated: DateTimeUtc,
)
    requires
        user_filled(before, after, id, email_value, created, updated),
    ensures
        after.fields@[before.fields@.len() as int] matches Field::Hidden(h) && h.value@ == id,
        after.fields@[before.fields@.len() as int + 1] matches Field::Email(e) && e.value@ == email_value,
        after.fields@[before.fields@.len() as int + 3] matches Field::Datetime(c) && c.name@ == "created"@
            && c.value == created,
        after.fields@[before.fields@.len() as int + 4] matches Field::Datetime(u) && u.name@ == "updated"@
            && u.value == updated,
{
}

/// The creation form's rows hold what it was filled with: the id in row
/// `n`, and the creation and update times given in rows `n + 3` and
/// `n + 4`.
pub proof fn law_create_form_rows(before: Form<()>, after: Form<()>, id: Seq<char>, created: DateTimeUtc, updated: DateTimeUtc)
    requires
        create_filled(before, after, id, created, updated),
    ensures
        after.fields@[before.fields@.len() as int] matches Field::Hidden(h) && h.value@ == id,
        after.fields@[before.fields@.len() as int + 3] matches Field::Datetime(c) && c.name@ == "created"@
            && c.value == created,
        after.fields@[before.fields@.len() as int + 4] matches Field::Datetime(u) && u.name@ == "updated"@
            && u.value == updated,
{
}

/// The login form's rows hold what it was filled with: the id in row `n`
/// and the email in row `n + 1`.
pub proof fn law_login_form_rows(before: Form<FormState>, after: Form<FormState>, id: Seq<char>, email_value: Seq<char>)
    requires
        login_filled(before, after, id, email_value),
    ensures
        after.fields@[before.fields@.len() as int] matches Field::Hidden(h) && h.value@ == id,
        after.fields@[before.fields@.len() as int + 1] matches Field::Email(e) && e.value@ == email_value,
{
}

/// What a form state gives for its member `key` read as text: `None` when
/// the state is not an object or has no such member; else the text of the
/// member, or the message of the error on reading it as text.
pub open spec fn member_text(state: FormState, key: Seq<char>) -> Option<Result<Seq<char>, Seq<char>>> {
    match state {
        FormState::Object(members) => match first_member(members@, key) {
            Some(i) => match members@[i].1 {
                Member::Text(t) => Some(Ok(t@)),
                Member::Other(v) => Some(json_string(v)),
            },
            None => None,
        },
        _ => None,
    }
}

/// The result of reading member `key` as text, as `member_text` says: the
/// text, or an error with the missing-key message or the message of the
/// error on reading it.
pub open spec fn read_outcome(state: FormState, key: Seq<char>, r: Result<String, Error>) -> bool {
    match member_text(state, key) {
        None => r matches Err(e) && e@ == missing_state_message(key),
        Some(Err(m)) => r matches Err(e) && e@ == m,
        Some(Ok(t)) => r matches Ok(s) && s@ == t,
    }
}

/// The member of the state called `key`, read as text.
fn state_text(state: &FormState, key: &str) -> (r: Result<String, Error>)
    ensures
        read_outcome(*state, key@, r),
{
    match state.get(key) {
        Ok(Member::Text(t)) => Ok(t.clone()),
        Ok(Member::Other(v)) => match read_json_string(v) {
            Ok(t) => Ok(t),
            Err(m) => Err(Error(m)),
        },
        Err(e) => Err(e),
    }
}

/// What building the login form from `form` gives: with no `email` member,
/// the missing-key error; with one that does not read as text, serde_json's
/// error; with the text `e`, the form with its rows for a fresh random id and `e`.
pub open spec fn login_built(form: Form<FormState>, r: Result<Form<FormState>, Error>) -> bool {
    match member_text(form.state, "email"@) {
        None => r matches Err(x) && x@ == missing_state_message("email"@),
        Some(Err(m)) => r matches Err(x) && x@ == m,
        Some(Ok(e)) => r is Ok && exists|n: u128|
            #![trigger login_filled(form, r->Ok_0, uuid_hex(n), e)]
            is_v4(n) && login_filled(form, r->Ok_0, uuid_hex(n), e),
    }
}

/// What building the user form from `form` gives.  The `id`, `email` and
/// `created` members are read as text in that order, and the first that is
/// missing or does not read as text gives the error.  Then `created` is read as a
/// time written `%Y-%m-%dT%H:%M`; chrono's error, if any, is the error.
/// Otherwise the form gets its rows for those texts, that time, and the
/// current time as the update time.
pub open spec fn user_built(form: Form<FormState>, r: Result<Form<FormState>, Error>) -> bool {
    let st = form.state;
    match member_text(st, "id"@) {
        None => r matches Err(x) && x@ == missing_state_message("id"@),
        Some(Err(m)) => r matches Err(x) && x@ == m,
        Some(Ok(id)) => match member_text(st, "email"@) {
            None => r matches Err(x) && x@ == missing_state_message("email"@),
            Some(Err(m)) => r matches Err(x) && x@ == m,
            Some(Ok(e)) => match member_text(st, "created"@) {
                None => r matches Err(x) && x@ == missing_state_message("created"@),
                Some(Err(m)) => r matches Err(x) && x@ == m,
                Some(Ok(t)) => match minute_datetime(t) {
                    Err(m) => r matches Err(x) && x@ == m,
                    Ok((secs, nanos)) => r is Ok && exists|c: DateTimeUtc, u: DateTimeUtc|
                        #![trigger user_filled(form, r->Ok_0, id, e, c, u)]
                        c.seconds == secs && c.nanoseconds == nanos && timestamp_in_range(
                            u.seconds as int,
                        ) && user_filled(form, r->Ok_0, id, e, c, u),
                },
            },
        },
    }
}

// ---------------------------------------------------------------------------
// The forms
// ---------------------------------------------------------------------------

impl LoginForm {
    /// Adds the login form's rows and buttons for the given id and email.
    pub fn fill(&self, form: Form<FormState>, id: &str, email_value: &str) -> (r: Form<FormState>)
        ensures
            login_filled(form, r, id@, email_value@),
    {
        let mut form = form;
        form.insert(Field::Hidden(hidden("id").value(id)));
        form.insert(Field::Email(email("email").label("Email").value(email_value)));
        form.insert(Field::Password(password("password").label("Password")));
        form.action(Action::Submit(submit("")));
        form.action(Action::Cancel(cancel("/")));
        form
    }

    /// Builds the login form: a fresh random id, and the email of the
    /// state (see `login_built`).
    pub fn build(&self, form: Form<FormState>) -> (r: Result<Form<FormState>, Error>)
        ensures
            login_built(form, r),
    {
        let n = new_uuid();
        let id = uuid_text(n);
        let ghost before = form;
        let email_value = match state_text(&form.state, "email") {
            Ok(s) => s,
            Err(e) => return Err(e),
        };
        let filled = self.fill(form, id.as_str(), email_value.as_str());
        let r = Ok(filled);
        assert(is_v4(n) && login_filled(before, r->Ok_0, uuid_hex(n), email_value@));
        r
    }
}

impl UserForm {
    /// Adds the user form's rows and buttons for the given values.
    pub fn fill(
        &self,
        form: Form<FormState>,
        id: &str,
        email_value: &str,
        created: DateTimeUtc,
        updated: DateTimeUtc,
    ) -> (r: Form<FormState>)
        ensures
            user_filled(form, r, id@, email_value@, created, updated),
    {
        let mut form = form;
        form.insert(Field::Hidden(hidden("id").value(id)));
        form.insert(
            Field::Email(
                email("email").label("Email").description("The email address of the user.").value(
                    email_value,
                ),
            ),
        );
        form.insert(
            Field::Password(
                password("password").label("Password").description("The password of the user."),
            ),
        );
        form.insert(
            Field::Datetime(
                datetime("created").label("Created").description(
                    "The date/time of when the user was first created.",
                ).value(created),
            ),
        );
        form.insert(
            Field::Datetime(
                datetime("updated").label("Updated").description(
                    "The date/time of when the user was last updated.",
                ).value(updated),
            ),
        );
        form.action(Action::Submit(submit("")));
        form.action(Action::Cancel(cancel("/")));
        form
    }

    /// Builds the user form from submitted data: the id, email and creation
    /// time (written `%Y-%m-%dT%H:%M`) of the state, updated now (see
    /// `user_built`).
    pub fn build(&self, form: Form<FormState>) -> (r: Result<Form<FormState>, Error>)
        ensures
            user_built(form, r),
    {
        let ghost before = form;
        let id = match state_text(&form.state, "id") {
            Ok(s) => s,
            Err(e) => return Err(e),
        };
        let email_value = match state_text(&form.state, "email") {
            Ok(s) => s,
            Err(e) => return Err(e),
        };
        let created_text = match state_text(&form.state, "created") {
            Ok(s) => s,
            Err(e) => return Err(e),
        };
        let created = match parse_minute_datetime(created_text.as_str()) {
            Ok(t) => t,
            Err(m) => return Err(Error(m)),
        };
        let updated = utc_now();
        let filled = self.fill(form, id.as_str(), email_value.as_str(), created, updated);
        let r = Ok(filled);
        assert(timestamp_in_range(updated.seconds as int) && user_filled(
            before,
            r->Ok_0,
            id@,
            email_value@,
            created,
            updated,
        ));
        r
    }
}

impl CreateForm {
    /// Adds the creation form's rows for the given id and times.
    pub fn fill(&self, form: &mut Form<()>, id: &str, created: DateTimeUtc, updated: DateTimeUtc)
        ensures
            create_filled(*old(form), *final(form), id@, created, updated),
    {
        form.insert(Field::Hidden(hidden("id").value(id)));
        form.insert(
            Field::Text(text("email").label("Email").description("The email address of the user.")),
        );
        form.insert(
            Field::Text(text("password").label("Password").description("The password of the user.")),
        );
        form.insert(
            Field::Datetime(
                datetime("created").label("Created").description(
                    "The date/time of when the user was first created.",
                ).value(created),
            ),
        );
        form.insert(
            Field::Datetime(
                datetime("updated").label("Updated").description(
                    "The date/time of when the user was last updated.",
                ).value(updated),
            ),
        );
    }

    /// Builds the creation form: a fresh random id, created and updated now.
    pub fn build(&self, form: &mut Form<()>) -> (r: Result<(), Error>)
        ensures
            r is Ok,
            exists|n: u128, c: DateTimeUtc, u: DateTimeUtc|
                is_v4(n) && timestamp_in_range(c.seconds as int) && timestamp_in_range(
                    u.seconds as int,
                ) && create_filled(*old(form), *final(form), uuid_hex(n), c, u),
    {
        let n = new_uuid();
        let id = uuid_text(n);
        let created = utc_now();
        let updated = utc_now();
        self.fill(form, id.as_str(), created, updated);
        Ok(())
    }
}

impl UpdateForm {
    /// Adds the update form's rows for the user in the form's state, with
    /// the given id text and update time.
    pub fn fill(&self, form: &mut Form<User>, id: &str, updated: DateTimeUtc)
        ensures
            update_filled(*old(form), *final(form), id@, updated),
    {
        let email_value = form.state.email.clone();
        let created = form.state.created;
        form.insert(Field::Hidden(hidden("id").value(id)));
        form.insert(
            Field::Email(
                email("email").label("Email").description("The email address of the user.").value(
                    email_value.as_str(),
                ),
            ),
        );
        form.insert(
            Field::Password(
                password("password").label("Password").description("The password of the user."),
            ),
        );
        form.insert(
            Field::Datetime(
                datetime("created").label("Created").description(
                    "The date/time of when the user was first created.",
                ).value(created),
            ),
        );
        form.insert(
            Field::Datetime(
                datetime("updated").label("Updated").description(
                    "The date/time of when the user was last updated.",
                ).value(updated),
            ),
        );
    }

    /// Builds the update form from the user in the form's state, its id
    /// written as text, updated now.
    pub fn build(&self, form: &mut Form<User>) -> (r: Result<(), Error>)
        ensures
            r is Ok,
            exists|u: DateTimeUtc|
                timestamp_in_range(u.seconds as int) && update_filled(
                    *old(form),
                    *final(form),
                    uuid_hex(old(form).state.id),
                    u,
                ),
    {
        let id = uuid_text(form.state.id);
        let updated = utc_now();
        self.fill(form, id.as_str(), updated);
        Ok(())
    }
}

} // verus!
