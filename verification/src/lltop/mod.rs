//! The logic of `lltop`, a live view of Landlock activity: its line-oriented
//! batch records and the model behind its terminal interface.
pub mod text;
pub mod records;
pub mod batch;
pub mod detail;
pub mod panes;
pub mod format;
pub mod input;
pub mod model;
pub mod order;
pub mod rows;
pub mod tree;
pub mod view;
mod batch_laws;
mod text_laws;
mod view_laws;

pub use batch_laws::{
    batch_after, denial_count, kind_count, lemma_stats_pane_counts_each_kind,
    lemma_stats_record_counts_each_kind, model_after,
    lemma_denial_yields_one_denial_record, lemma_records_end_with_statistics,
    lemma_repeated_denial_yields_only_its_count, lemma_ruleset_events_are_silent,
    lemma_repeated_observation_is_silent,
    lemma_unknown_event_is_silent,
};
pub use text_laws::{
    hex_value, is_token_char, joined_lines, lemma_elapsed_text_of_reordered_timestamps,
    lemma_elapsed_text_splits_units, lemma_escape_is_injective, lemma_escape_is_reversible,
    lemma_escaped_text_is_one_token, lemma_target_summary_is_one_token, lemma_wrap_loses_nothing,
    is_summary_char, is_summary_token, unescaped,
};
pub use view_laws::{
    lemma_every_domain_has_a_row, lemma_every_ruleset_has_a_row, lemma_first_seen_is_first_observation,
    lemma_followed_selection_is_in_view, lemma_rule_count_counts_both_kinds,
    lemma_manual_scroll_stays, lemma_retained_denial_keeps_its_row,
};
