# nodecask

The rules of the NodeCask forum as a library whose behaviour is stated in
contracts and proved with Verus.

- `src/` — the verified library, one module per concern: text helpers
  (`text`), pagination, posting rules and who may act on topics (`topic`,
  `mention`, `markdown`), boards and their attributes (`node`), accounts and sign-in
  (`auth`, `account`, `rewards`), automatic moderation (`moderate`),
  administration (`admin`, `files`), site settings (`system`, `pages`,
  `links`, `linkfilter`, `labels`, `notify`, `common`) and the first-run
  installation form (`wizard`).
- `tests/` — tests on concrete values.
- `app/` — a small command-line front end, with the parts that work on
  floating-point numbers and the SCSS compile.
