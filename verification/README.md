# Glossarium

A workshop for constructed language families: design a proto-language's
phonology, seed a lexicon, and evolve daughter languages through
documented sound changes. Every derived form is computed from the
proto-language and an ordered chain of rules.

## Layout

- `src/` — the library, verified with Verus. Segments and feature bundles
  (`phon`, `phon_data`, with laws about the segment table and the catalog in
  `table_laws`), the sound-change engine and its catalog (`sca`,
  `catalog`), the concept lists and word generator (`lexicon`, `gen`, with the
  shape of its words in `word_shape`),
  grammar sketches and story realization (`grammar`, `realize`), and every
  decision of the phonology wizard and the evolve workbench (`phonotactics`,
  `phonology`, `romanization`, `spelling`, `typology`, `ipa_chart`, `order`,
  `evolve`, `site`, `config`). Each public function states what it returns
  in its `ensures`; the `law_*` proof functions state properties that span
  calls (determinism, what a toggle undoes, what the evolve menu offers).
- `tests/` — tests of the library on concrete values.
- `app/` — the web server around the library: HTTP handlers, HTML views,
  SQLite storage, sign-in over OpenID Connect, and the JSON shapes stored in
  the database.
