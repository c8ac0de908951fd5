//! The redirect resolver's transition rules: one step of folding a redirect
//! chain, bounded by `MAX_REDIRECT_DEPTH`. Lookup misses prune the node as
//! not found, an empty redirect target prunes it as filtered, and a chain
//! longer than the bound prunes it as too deep. Pruning is local: it removes
//! one node's subtree and never aborts the search.

use vstd::prelude::*;
use vstd::string::*;
use crate::store::Entry;
use crate::links::{split_links, split_links_spec};

verus! {

/// How many redirect entries one chain may traverse before it is abandoned.
pub const MAX_REDIRECT_DEPTH: u32 = 20;

/// Why a node contributed no edges.
#[derive(Clone, Copy, PartialEq, Eq, Structural, Debug)]
pub enum AbandonReason {
    /// The title misses the store even after the normalization fallback.
    NotFound,
    /// The redirect target is excluded by policy and must never be followed.
    FilteredNamespace,
    /// The redirect chain exceeded the depth bound.
    DepthExceeded,
}

/// The outcome of one resolver step.
pub enum Resolution {
    /// A redirect with a non-empty target inside the depth bound: resolving
    /// continues at the target.
    Advance(String),
    /// A non-redirect entry: its outbound link titles, in stored order.
    Resolved(Vec<String>),
    /// The node is pruned and the search continues.
    Abandoned(AbandonReason),
}

/// One transition of the resolver, applied to the entry a lookup returned
/// (after the fallback, if any) for the title being resolved at depth `depth`.
pub fn resolve_entry(found: Option<&Entry>, depth: u32) -> (r: Resolution)
    ensures
        match found {
            None => r == Resolution::Abandoned(AbandonReason::NotFound),
            Some(e) => if !e.is_redirect {
                r matches Resolution::Resolved(ls) && ls@.map_values(|s: String| s@)
                    == split_links_spec(e.payload@)
            } else if e.payload@.len() == 0 {
                r == Resolution::Abandoned(AbandonReason::FilteredNamespace)
            } else if depth + 1 < MAX_REDIRECT_DEPTH {
                r matches Resolution::Advance(t) && t@ == e.payload@
            } else {
                r == Resolution::Abandoned(AbandonReason::DepthExceeded)
            },
        },
{
    match found {
        None => Resolution::Abandoned(AbandonReason::NotFound),
        Some(e) => {
            if !e.is_redirect {
                Resolution::Resolved(split_links(&e.payload))
            } else if e.payload.as_str().is_empty() {
                Resolution::Abandoned(AbandonReason::FilteredNamespace)
            } else if depth < MAX_REDIRECT_DEPTH - 1 {
                Resolution::Advance(e.payload.clone())
            } else {
                Resolution::Abandoned(AbandonReason::DepthExceeded)
            }
        },
    }
}

} // verus!
