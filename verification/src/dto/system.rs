//! System health and status pages.

use vstd::prelude::*;
use vstd::string::StringExecFns;
use crate::validation::{length_within, opt_length_within, opt_string_view, spec_valid_email, opt_valid_email, length_ok, opt_length_ok, valid_email, opt_email_ok};

verus! {

/// Outcome of checking the menu hash chain.
pub struct VerifyTreeResponseDto {
    pub is_valid: bool,
    pub node_count: i32,
    pub corrupted_count: i32,
    pub corrupted_hashes: Vec<String>,
}

/// The newest hash of one chain.
pub struct HeadDto {
    pub key: String,
    pub hash: String,
}

/// A system incident.
pub struct IncidentDto {
    pub id: Option<i32>,
    pub component: String,
    pub title: String,
    pub message: String,
    pub started_at: String,
    pub ended_at: Option<String>,
    pub resolved_at: Option<String>,
    pub status: String,
}

/// Current status and open incidents.
pub struct SystemStatusDto {
    pub status: String,
    pub last_activity: Option<String>,
    pub incidents: Vec<IncidentDto>,
}

/// Status of a component on one day.
pub struct StatusDayDto {
    pub date: String,
    pub status: String,
}

/// Daily statuses of a component.
pub struct ComponentHistoryDto {
    pub name: String,
    pub days: Vec<StatusDayDto>,
}

/// The health of the system: status, the fingerprint of all chain heads, how many
/// records of each kind are stored (`Menü node`, `Yorum node`, `Kullanıcı node`,
/// `Rapor node`) and their total, and the heads themselves.
pub struct SystemHealthResponseDto {
    pub status: String,
    pub global_fingerprint: String,
    pub node_counts: Vec<(String, i64)>,
    pub heads: Vec<HeadDto>,
    pub total_nodes: i64,
}

} // verus!
