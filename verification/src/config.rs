//! The transport policy the pipeline fixes: endpoint resolution with its
//! literal fallback, the redirect and timeout bounds, and the fixed request
//! headers.

use vstd::prelude::*;
use vstd::string::*;

verus! {

/// The fixed fallback endpoint, used when no URL is configured.
pub open spec fn spec_default_endpoint() -> Seq<char> {
    "https://www.focalrina.com/api/gemini"@
}

pub fn default_endpoint() -> (r: &'static str)
    ensures
        r@ == spec_default_endpoint(),
{
    "https://www.focalrina.com/api/gemini"
}

/// Resolves the endpoint URL: a configured value wins, otherwise the fixed
/// fallback. One flat string; no failover.
pub fn resolve_endpoint(configured: Option<String>) -> (r: String)
    ensures
        match configured {
            Some(u) => r@ == u@,
            None => r@ == spec_default_endpoint(),
        },
{
    match configured {
        Some(u) => u,
        None => String::from_str(default_endpoint()),
    }
}

/// How many redirects the transport may follow before failing.
pub fn redirect_limit() -> (r: usize)
    ensures
        r == 5,
{
    5
}

/// The wall-clock bound, in seconds, on one whole exchange.
pub fn request_timeout_secs() -> (r: u64)
    ensures
        r == 60,
{
    60
}

pub fn content_type_value() -> (r: &'static str)
    ensures
        r@ == "application/json"@,
{
    "application/json"
}

pub fn accept_value() -> (r: &'static str)
    ensures
        r@ == "application/json"@,
{
    "application/json"
}

/// The fixed identifying agent string sent with every request.
pub fn user_agent_value() -> (r: &'static str)
    ensures
        r@ == "Tauri-Gemini-Client/1.0"@,
{
    "Tauri-Gemini-Client/1.0"
}

} // verus!
