use vstd::prelude::*;

verus! {

/// A stored mapping from a short identifier to a destination URL.
#[derive(Debug)]
pub struct Link {
    pub id: String,
    pub target_url: String,
}

/// A request body carrying the destination URL for a create or update.
pub struct LinkTarget {
    pub target_url: String,
}

/// One aggregated row of redirect statistics: how many recorded events share
/// the same (user agent, referer) pair for a given link.
#[derive(Debug)]
pub struct CountedLinkStatistics {
    pub amount: Option<i64>,
    pub user_agent: Option<String>,
    pub referer: Option<String>,
}

/// One recorded redirect occurrence, with the optional request headers that
/// accompanied it.
pub struct StatisticEvent {
    pub link_id: String,
    pub referer: Option<String>,
    pub user_agent: Option<String>,
}

/// The view of an optional string: its character sequence, if present.
pub open spec fn opt_view(o: Option<String>) -> Option<Seq<char>> {
    match o {
        Some(s) => Some(s@),
        None => None,
    }
}

} // verus!
