use vstd::prelude::*;

verus! {

/// Fixed-point unit of the fractional quantities of a mirror: `ONE` stands for 1.0,
/// so a value counts millionths.
pub const ONE: u64 = 1_000_000;

/// Highest accepted sync delay, in seconds, when the user names none.
pub const DEFAULT_MAX_DELAY: u32 = 3600;

/// The user's selection criteria.
pub struct Args {
    /// Where to write the results.
    pub output: Option<String>,
    /// Only keep mirrors reachable over IPv6.
    pub require_ipv6: bool,
    /// Only keep mirrors reachable over IPv4.
    pub require_ipv4: bool,
    /// Accepted protocols; empty accepts all.
    pub protocol: Vec<String>,
    /// Accepted country code; absent accepts all.
    pub country: Option<String>,
    /// Highest acceptable sync delay in seconds; absent means `DEFAULT_MAX_DELAY`.
    pub delay: Option<u32>,
    /// How many mirrors the writer of the list leaves uncommented.
    pub maximum_mirrors: Option<usize>,
}

/// One candidate mirror.
///
/// `completion_pct`, `duration_avg`, `duration_stddev` and `score` are fixed-point
/// numbers in millionths (see `ONE`); durations thus count microseconds.
/// A value that was unknown, or malformed at the source, is `None`.
pub struct Url {
    pub url: String,
    pub country_code: String,
    pub protocol: String,
    pub completion_pct: Option<u64>,
    pub delay: Option<u32>,
    pub ipv4: bool,
    pub ipv6: bool,
    pub duration_avg: Option<u64>,
    pub duration_stddev: Option<u64>,
    pub score: Option<u64>,
}

/// The candidate pool as fetched.
pub struct ApiResponse {
    pub urls: Vec<Url>,
}

impl Args {
    /// The sync delay threshold in force.
    pub open spec fn max_delay(self) -> u32 {
        match self.delay {
            Some(d) => d,
            None => DEFAULT_MAX_DELAY,
        }
    }
}

impl Url {
    /// The key that ranking orders by; an absent score counts as 0.
    pub open spec fn score_key(self) -> u64 {
        match self.score {
            Some(s) => s,
            None => 0,
        }
    }
}

} // verus!
