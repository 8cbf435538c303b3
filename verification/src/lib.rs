//! Typed, hierarchical navigation: route segments, navigation paths,
//! navigation history and hierarchical navigation scopes.

mod config;
mod deriving;
mod error;
mod history;
mod navigator;
mod path;
mod registry;
mod route;
mod router;
mod scope;

pub use config::{NavMotion, NavigatorConfig};
pub use deriving::{check_derive_target, DeriveRefusal};
pub use error::{NavigationResult, NavigatorError};
pub use history::{
    after_back, after_go, after_replace, current_of, go_outcome, history_wf, lemma_back_undoes_go,
    lemma_go_skips_only_current, lemma_history_changes, lemma_parent_or_empty_is_structural,
    lemma_replace_records_path, lemma_transitions_keep_wf, parent_or_empty, HistoryView,
    NavigationHistory,
};
pub use navigator::Navigator;
pub use path::{
    joined_text, lemma_head_tail_split, lemma_join_associative, lemma_join_reads,
    lemma_other_type_is_mismatch, lemma_parent_of_push, lemma_push_keeps_reads, lemma_push_keeps_typed_reads, lemma_pushed_route_found, lemma_read_pushed, lemma_segment_read_in_range, lemma_typed_read_in_range, lemma_typed_read_stored,
    lemma_typed_read_pushed, mismatch_at, segment_read, typed_read, NavPath, PathError,
};
pub use registry::{
    lemma_release_keeps_diverging, lemma_release_only_subtree, lemma_scope_map_entry, lemma_scope_map_push,
    lemma_scopes_independent, scope_map, unique_scopes, without_subtree, NavigationRegistry,
};
pub use route::{
    lemma_one_segment_per_route, names_type, parses_to, stores_route, well_behaved, RouteSegment,
    RouteView,
};
pub use router::{navigate_head, navigate_next, NavigationError};
pub use scope::{
    lemma_child_parent, lemma_diverging_scopes_unrelated, lemma_parent_is_prefix,
    lemma_prefix_order, lemma_scope_prefix_is_take, scope_prefix, scope_text,
    slash_joined, ScopeId, ScopePath,
};
