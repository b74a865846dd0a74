# cms_for_rust

Verified building blocks of a content management server and of its testing helpers.

- `src/` is the library, checked by Verus:
  - reading a `Debug` rendering back into a value (`stream`, `parse`, with the model in
    `debug_spec`), comparing two such values key by key (`compare_spec`, `compare`), and
    rendering them (`render`);
  - whitespace-insensitive text comparison (`pretty`, `unpretty`) and the assertion API built
    on both (`expect`, `ord_mod`, `invoking`);
  - the server's error values and their responses (`error`), session tokens, password hashing
    and request checks (`auth`, `token`), SQL clauses and INSERT statements (`schema`,
    `statement`), and the shapes of operations (`operations`);
  - laws that span several functions (`laws`, `pretty::law_pretty_idempotent`).
- `tests/` runs the library on concrete values.
- `app/` holds what is not verified: assertions that panic, reading `JWT_SALT` and the clock,
  and conversions to `http`'s status codes.
