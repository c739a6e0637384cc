# handy_core

A verified library for the Handy Brawl card game: the card table, piles and
how they are read from text, the rules that end a game, the engine that plays out a
turn, an exhaustive search for a way to reach a goal, compact storage of
piles for search, random starting piles, and the text that describes game
events. Every function in `src/` carries a contract that Verus proves.

## Layout

- `src/primitives.rs`, `src/card_ptr.rs`, `src/used_cards.rs`: the game's
  values (faces, rows, actions, events, classes) and cards in a pile.
- `src/pile.rs`: piles, held in an `arrayvec::ArrayVec`, and the few
  `ArrayVec` operations the library uses, with their contracts.
- `src/card_defs.rs`, `src/card_data.rs`: the card table and the builders
  that describe each card.
- `src/card_views.rs`, `src/card_table.rs`: cards as mathematical values,
  the same builders on them, and the table's contents stated card by card.
- `src/search_status.rs`: the states that a search over piles reports.
- `src/pile_parse.rs`, `src/pile_text.rs`: reading cards and piles such as
  `"1 2B 3c"`, and the proof that a pile written as text reads back as
  itself.
- `src/pile_utils.rs`, `src/card_modifiers.rs`, `src/piper_helpers.rs`,
  `src/end_game.rs`, `src/victory.rs`: rules about piles, cards and the end
  of a game.
- `src/game_state.rs`, `src/outcomes.rs`, `src/event_prefix.rs`,
  `src/event_text.rs`: the states that the engine passes around, the ways
  a card can be hurt or revived, following choices through event logs, and
  describing events.
- `src/engine.rs`: the engine. `resolve_top_card` gives every state that
  one turn of the top card can lead to; the cards and faces its rules cover
  are those of `pile_ruled`, which `is_pile_ruled` checks.
- `src/search.rs`: the exhaustive search, turn by turn, for the paths that
  reach a goal, and the events shown between two piles of a path.
- `src/permutation.rs`, `src/pile_mapping.rs`, `src/tiny_pile.rs`: numbering
  of orderings and the compact form of nine-card piles, with round-trip
  proofs.
- `src/matchups.rs`, `src/class_names.rs`, `src/card_index.rs`,
  `src/action_names.rs`: matchups of classes, names, file names and the
  positions of cards in a network's input.
- `src/random_starts.rs`: random starting piles drawn with `rand_pcg`.
- `tests/`: tests of the library on concrete values.
- `app/main.rs`: the command line, which reads arguments, draws or reads a
  starting pile, prints what the library computes about it and, with
  `--search`, the paths the exhaustive search finds.
