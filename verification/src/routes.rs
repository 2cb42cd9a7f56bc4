//! The answers of the endpoints that are not a request or response of the
//! index itself.

use crate::ids::{hyphenated, tenant_text};
use crate::index_manager::UserIndexStats;
use crate::models::HealthResponse;
use vstd::prelude::*;
use vstd::string::StringExecFns;

verus! {

/// The body of the answer to a request for a tenant's statistics.
#[derive(Debug, Clone)]
pub struct StatsResponse {
    /// The tenant's UUID in hyphenated form.
    pub user_id: String,
    pub num_documents: usize,
}

/// The answer of the health probe: `ok`, with the version of the service.
pub fn health_check(version: &str) -> (response: HealthResponse)
    ensures
        response.status@ == "ok"@,
        response.version matches Some(v) && v@ == version@,
{
    HealthResponse { status: String::from_str("ok"), version: Some(String::from_str(version)) }
}

/// Shapes a tenant's statistics for the wire.
pub fn get_stats(stats: &UserIndexStats) -> (response: StatsResponse)
    ensures
        response.user_id@ == hyphenated(stats.user_id),
        response.num_documents == stats.num_documents,
{
    StatsResponse { user_id: tenant_text(stats.user_id), num_documents: stats.num_documents }
}

} // verus!
