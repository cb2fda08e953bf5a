# budget2

A household budgeting application whose core is verified with Verus.

- `src/` — the verified library.
  - `text` — character-level text handling (trimming, searching, number reading and writing,
    ordering of texts).
  - `model` — users, households and roles, accounts, categories, import rules, the CSV
    statement reader and importer, dates and the dashboard's transaction pages.
  - `web` — the decisions of the web front end: dashboard queries and chart series, statement
    uploads, forms, request context and the values each page shows.
  - `single_user` — the logic of the single-user edition, where accounts, categories and
    rules belong to one user: reading its statements, planning and counting imported rows,
    dashboard filters, rule grouping and the chart axis. Its server is not part of `app/`.
- `tests/` — tests of the library on concrete values.
- `app/` — the household web server around the library: configuration, sessions, sign-in, the
  database and the HTML pages.

The contracts of the library state what each function returns; the proof functions named
`lemma_*` state the laws that hold across calls, such as that a household always keeps a
manager, that import counts stay balanced and that a grouped amount reads back as its
digits.
