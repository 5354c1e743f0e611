//! Selection and ranking of package mirrors.
//!
//! Candidates pass through a filter made of independent predicates
//! (data completeness, country, protocol, freshness, latency, IP version)
//! and the survivors are ranked by score, lowest first.
mod compare;
mod filter;
mod laws;
mod pipeline;
mod rank;
mod types;

pub use compare::{ip_filter, maybe_absent_compare, maybe_absent_list};
pub use filter::{
    accepts, complete, country_ok, filter_mirrors, fresh, has_data, ip_ok, mirror_passes,
    protocol_ok, quick, survivors,
};
pub use laws::{
    lemma_filter_idempotent, lemma_no_ip_requirement, lemma_no_protocol_requirement,
    lemma_ranking_ascending, lemma_relaxing_keeps_survivors, lemma_unknown_delay_excluded,
    lemma_survivors_accepted, lemma_survivors_complete_and_quick, lemma_survivors_contains,
    relaxes,
};
pub use pipeline::process_mirrors;
pub use rank::{by_score, insert_by_score, rank_mirrors, sorted_by_score};
pub use types::{ApiResponse, Args, Url, DEFAULT_MAX_DELAY, ONE};
