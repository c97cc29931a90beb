use vstd::prelude::*;

verus! {

#[derive(Debug)]
pub struct SslFlushResponse {
    pub flushed: u64,
}

#[derive(Debug)]
pub struct SslHttpFlushResponse {
    pub flushed: u64,
}

#[derive(Debug)]
pub struct SslGlobalConfigResponse {
    /// Whether process-level SSL observability is enabled.
    pub enabled: bool,
}

#[derive(Debug)]
pub struct UpdateSslGlobalConfigRequest {
    /// Desired global SSL observability state.
    pub enabled: bool,
}

#[derive(Debug)]
pub struct SslErrorEntry {
    pub seq: u64,
    pub pid: u32,
    pub tid: u32,
    pub timestamp: u64,
    pub syscall: String,
    pub ret_code: i32,
    pub error_hint: String,
}

#[derive(Debug)]
pub struct SslErrorListResponse {
    pub errors: Vec<SslErrorEntry>,
}

#[derive(Debug)]
pub struct SslErrorFlushResponse {
    pub flushed: u64,
}
} // verus!
