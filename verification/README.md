# kanban

A kanban board web application (boards, lists, cards; GitHub or development
sign-in; one SQLite database per user; live updates over a websocket).

- `src/` is the verified library: the models and their text renderings, the
  error messages and HTTP statuses, CSRF token masking and checking, the
  grouping of validation messages, the access decisions (API bearer token,
  posted CSRF token, per-user database id) and what each handler decides
  between its reads and writes. Calls into `hex`, `rand`, `sha2`,
  `form_urlencoded` and `garde` sit behind small trusted wrappers whose
  contracts say what those crates do.
- `app/` is the server around it: axum routes and extractors, sqlx queries,
  askama templates, sessions, OAuth and the websocket loop.
- `tests/` exercises the library.
