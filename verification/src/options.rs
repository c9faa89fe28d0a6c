use vstd::prelude::*;

verus! {

/// Read-only configuration consumed by the proxy core.
#[derive(Debug, Clone, PartialEq, Eq)]
pub struct CliOptions {
    /// Whether the HTTP server is enabled.
    pub http: bool,
    /// Number of worker threads of the server.
    pub http_threads: u64,
    /// Port the server listens on.
    pub http_port: u16,
    /// Address the server binds to.
    pub http_addr: String,
    /// URL of the upstream node every call is forwarded to.
    pub target_addr: String,
    /// Capacity of each key's call history.
    pub request_queue_size: usize,
}

impl Default for CliOptions {
    /// The configuration used when no option is given on the command line.
    fn default() -> (r: CliOptions)
        ensures
            !r.http,
            r.http_threads == 2,
            r.http_port == 8080,
            r.http_addr@ == "127.0.0.1"@,
            r.target_addr@ == "http://polygongas.org:8545"@,
            r.request_queue_size == 10000,
    {
        CliOptions {
            http: false,
            http_threads: 2,
            http_port: 8080,
            http_addr: "127.0.0.1".to_string(),
            target_addr: "http://polygongas.org:8545".to_string(),
            request_queue_size: 10000,
        }
    }
}

} // verus!
