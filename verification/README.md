# crap_cms

The logic of a headless CMS with Lua hooks, written in Verus and verified: what the admin
forms show for each field, how submitted forms and stored documents are read back into
rows, how version snapshots are restored, the crypto helpers that hooks call, the tables
that the Lua API hands out for field definitions, the decisions of the document
lifecycle (hook nesting, drafts, pagination, access results), and the files that the
`make` commands generate.

Layout:

- `src/` — the verified library, one module per concern:
  `field` (field definitions), `context`, `field_builder` and `enrich` (form field
  contexts), `forms` (submitted forms), `versions` (snapshots and version queries),
  `crypto`, `lua_tables` and `round_trip` (the tables of the Lua API and the proof that
  a round-trip table determines its definition), `collection`, `lifecycle`, `scaffold`, `typegen`,
  `translations` and `interpolation` (what interpolating a template means, whatever the
  order of the parameters), `selected` (the selected items of relationship and upload
  widgets), `status`, `cli`, `events`, `builders`, `strmap`, `text`.
- `tests/` — tests of the library on concrete values.
- `app/` — the command-line front end (`make global|hook|job|migration`, and `translate`,
  which reads a locale file and looks a key up), which does the
  file-system work and leaves every decision to the library, plus serializable copies of
  the event enums and conversions from JSON values and hash maps.
