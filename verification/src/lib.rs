//! Rules, move generation and strategy of the Guandan card game, verified with Verus.

pub mod advanced_policy;
pub mod beat_comparator;
pub mod cards;
pub mod chance;
pub mod combination_parser;
pub mod domain;
pub mod follow_decision;
pub mod game_log;
pub mod game_types;
pub mod genetic;
pub mod hand_combos;
pub mod hand_tracker;
pub mod hand_view;
pub mod human_stats;
pub mod json;
pub mod learning_task;
pub mod leftovers;
pub mod log_analysis;
pub mod movegen;
pub mod movegen_complete;
pub mod movegen_laws;
pub mod movegen_search;
pub mod narration;
pub mod params;
pub mod play_context;
pub mod play_facts;
pub mod play_set;
pub mod prob_reasoner;
pub mod record_learner;
pub mod rule_features;
pub mod rule_params;
pub mod rule_scoring;
pub mod scoring;
pub mod scoring_laws;
pub mod scoring_terms;
pub mod suggest;
pub mod suggest_laws;
pub mod table;
pub mod table_actions;
pub mod table_flow;
pub mod tally;
pub mod text;
pub mod training;
pub mod wildcard_resolver;
