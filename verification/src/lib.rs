use vstd::prelude::*;

pub mod primitives;
pub mod card_ptr;
pub mod pile;
pub mod card_defs;
pub mod card_data;
pub mod card_views;
pub mod card_table;
pub mod pile_utils;
pub mod end_game;
pub mod pile_parse;
pub mod card_modifiers;
pub mod piper_helpers;
pub mod permutation;
pub mod pile_mapping;
pub mod tiny_pile;
pub mod class_names;
pub mod matchups;
pub mod action_names;
pub mod card_index;
pub mod victory;
pub mod random_starts;
pub mod game_state;
pub mod used_cards;
pub mod event_prefix;
pub mod event_text;
pub mod pile_text;
pub mod outcomes;
pub mod search_status;
pub mod engine;
pub mod search;

verus! {
} // verus!
