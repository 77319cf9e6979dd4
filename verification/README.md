# DieselLynk

A service that brings truck drivers and diesel technicians together: drivers
open sessions and report on their trucks, technicians join and lead them,
administrators look after the organisations that take part.

- `src/` is the library `diesellynk`: what the service answers and changes,
  verified with Verus. Each function states what it answers and what it changes; the public
  proof functions state what holds of several of them together.
- `tests/` runs the library on concrete values.
- `app/` is the server around it: HTTP routes and sockets (actix), the SQLite
  database (rusqlite), JSON (serde) and the exchanges with the remote-desktop
  gateway. The queries and statements of the database stand there too.

What the proofs rest on beside Verus and its library: the clock is read in
`clock`, JSON documents are read and written by serde_json in `json`, letters
change case in `letter_case`, and bytes become text in `base64` and `http`. The
doc comment on each of these items says what is taken for granted there.

The server reads its settings from the environment: `PORT`, `DATABASE_URL`,
`ADMIN_USERNAME`, `ADMIN_PASSWORD`, `DL_MASTER_PASSWORD`, `ORG_PASSWORDS`
(`id:password` entries between commas), `GUAC_URL`, `GUAC_USER` and `GUAC_PASS`.
