# brace

A configuration tree addressed by dotted keys (`"web.host"`, `"list.0.item"`),
with the pieces of a small web toolkit around it: form fields, form actions
and the user forms, the reader of url-encoded form bodies, user records with
their tokens and password hashes, theme manifests and database settings.

The library in `src/` is written in Verus.  Every operation on the tree is
specified over a mathematical model (`value::Node`).  No table in a tree
holds a key twice: that is the type invariant of `Table` and `Array`, which
every constructor establishes and every operation keeps.  `value::laws`
proves how the operations relate: what a read gives back after a write, that
writes and merges keep trees well formed, what a merge of two tables or two
arrays holds and when it succeeds, and that merging a copy of a tree into it changes nothing.

- `src/value/` — the tree (`Value`, `Entry`, `Array`, `Table`), its model,
  reading typed values out of it (`de`), and the laws.
- `src/config.rs` — configurations built on a table, and the file formats.
- `src/text.rs` — dotted keys, and decimal integers read and written the
  way `str::parse` and `to_string` do.
- `src/form/` — fields, actions, forms, form state, and the decisions of
  reading a url-encoded body, down to the text it is parsed from.
- `src/auth/` — user records, bearer tokens, login claims, salts and
  argon2 hashes, who a session belongs to, and the user forms.
- `src/theme.rs`, `src/db.rs`, `src/time.rs` — theme and manifest settings,
  database settings, points in time.

`app/` holds what Verus does not check: serde support for the tree and the
files it is loaded from and saved to, token signing, password checks, the
user store's queries, the actix-web extractor that drives the body reader,
the JSON routes, and the theme command line.
