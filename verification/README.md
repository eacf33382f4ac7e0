# clawguandan

Guandan is a card game for four players in two teams, with two decks and wild cards. This
library holds its rules, the search for legal plays, the strategies of its bots, the tables it is
played at and the training of the bots' weights. All of it is written in Verus: the contracts say
what each function returns or changes, and Verus proves them.

- `src/` is the library. Cards, combinations and scoring come first (`cards`,
  `combination_parser`, `beat_comparator`, `wildcard_resolver`, `scoring`, `narration`), then legal
  plays (`movegen`, `movegen_laws`, `movegen_search`, `movegen_complete`), the choice among them (`suggest`,
  `follow_decision`, `scoring_terms`, `play_facts`, `suggest_laws`), the bots (`advanced_policy`,
  `rule_scoring`), the tables (`table`, `table_actions`, `table_flow`) and the training
  (`training`, `genetic`, `learning_task`, `record_learner`, `human_stats`).
- `tests/` runs the library on concrete tables.
- `app/` is the program around it: files, the clock, threads and the web server.

Weights and points are fixed-point numbers with eight decimal places; chances are exact
fractions. Random numbers, JSON texts and identifiers come from `rand`, `serde_json` and `uuid`
through a few functions whose contracts are taken on trust; each of them says so.
