//! Shortest-path search over an encyclopedia link graph.
//!
//! The crate models a title-to-entry adjacency store, folds redirect chains
//! while searching, and runs a breadth-first search that reports a path with
//! the minimum number of direct-link hops. Redirect hops are resolved inline
//! and never occupy frontier slots of their own.

mod chars;
mod engine;
mod extract;
mod links;
mod normalize;
mod path;
mod resolve;
mod store;
mod visited;

pub use chars::{
    str_chars, trim_chars, subrange_chars, begins_with, find_str_from, find_char_from,
    find_of_two_from, has_prefix, first_match_from, first_char_from, first_of_two_from, is_white,
    upper_char, ltrim, rtrim, trim_spec,
};
pub use links::{split_links, join_links, split_links_spec, split_links_from, join_links_spec,
    join_links_from};
pub use normalize::{
    to_titlecase, capitalize_first, normalize_title, NormalizeStrategy, spec_titlecase,
    spec_capitalize_first, spec_normalize,
};
pub use engine::{
    Engine, Action, SearchOutcome, search, opt_entry_titles, opt_entry_view, lookup_model,
    answer_matches, log_entry_matches, hop_justified, path_justified, store_hop_valid,
    store_path_valid, schedule_links, provide_transition, prunes_to_ready, fallback_started,
    found_with, advanced_to, expanded_with,
};
pub use extract::{
    get_links_from_body, extract_links_spec, collect_links_from, spec_redirect_target,
    has_forbidden_prefix, forbidden_patterns_spec, is_redirect_body, scan_limit, upto_hash,
    redirect_err_msg,
};
pub use path::{
    Page, PageHolder, escape_path_of, spec_arrow, spec_link, spec_segment, spec_render,
    spec_render_tail,
};
pub use resolve::{Resolution, AbandonReason, resolve_entry, MAX_REDIRECT_DEPTH};
pub use store::{Entry, Store, entry_titles, rows_titles};
pub use visited::{VisitedSet, lemma_single_expansion};
