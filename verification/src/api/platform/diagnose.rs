use vstd::prelude::*;

verus! {

#[derive(Debug, Clone)]
pub struct DiagnoseRequest {
    pub dst_ip: String,
    pub dst_port: u16,
    pub chain: Option<String>,
    pub time_window_seconds: Option<u64>,
}

/// One piece of evidence behind a diagnosis.
#[derive(Debug)]
pub struct DiagnoseEvidence {
    pub evidence_type: String,
    pub severity: String,
    pub title: String,
    pub summary: String,
    pub metrics: serde_json::Value,
}

/// The diagnosis of a destination.
#[derive(Debug)]
pub struct DiagnoseResponse {
    pub diagnose_id: String,
    pub verdict: String,
    pub summary: String,
    pub evidence: Vec<DiagnoseEvidence>,
    pub candidate_causes: Vec<String>,
    pub suggested_actions: Vec<String>,
}
} // verus!
