# jmdict-fast

A Japanese–English dictionary library over JMdict, with its logic proved
correct by Verus: kana and romaji conversion, a rule-based deinflector for
Japanese verbs and adjectives, the `entries.bin` data format, the FST lookup
indexes (exact, deinflected, prefix and fuzzy search), result filters, and
the decisions of data installation and caching.

## Layout

- `src/` — the verified library. Each public function states what it
  returns in its contract; some laws that relate several functions stand as
  public proof functions, others as clauses of those functions' contracts:
  - `kana.rs`, `kana_table.rs`, `kanji.rs`: script tests and conversions
    between hiragana, katakana and romaji.
  - `deinflect_rules.rs`, `deinflect_model.rs`, `deinflector.rs`,
    `candidates.rs`: the deinflection rules, a mathematical model of the
    deinflection search, and the executable search proved equal to it;
    `deinflect_termination.rs` and `deinflect_laws.rs` prove that the search
    ends and what its results hold.
  - `blob.rs`: the `entries.bin` format, its encoder and reader, and the
    round trip between them.
  - `dict.rs`: the dictionary and its candidate searches over the FST
    indexes; `index.rs`: reading JMdict records and building the indexes.
  - `query.rs`: result filters and the query builders, whose candidates
    follow the match mode.
  - `model.rs`, `error.rs`, `text.rs`: entries, errors and text helpers.
  - `cache.rs`, `install.rs`: cache status, download and installation
    decisions.
- `tests/` — tests on concrete values.
- `app/` — what stays outside verification: file and network I/O, memory
  maps, serde models, floating-point scores, the standard error traits, and
  the command-line tool that generates the data files.
