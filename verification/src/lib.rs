//! Data-acquisition pipeline for enriching an exported social-media archive
//! with live metrics from a rate-limited, OAuth2-protected REST API.
//!
//! The crate holds the pipeline's logic as verified code over plain values:
//! the streaming archive-array extractor, the OAuth2/PKCE negotiation state
//! machine, the rate-limit retry policy, and the paginated, rate-budgeted
//! fetch planner. Network and file I/O live outside the crate; callers hand
//! bytes and events in and take decoded values and decisions back out.

pub mod auth;
pub mod batch;
pub mod envelope;
pub mod fetch;
pub mod errors;
pub mod prefix;
pub mod query;
pub mod rate;
pub mod retry;
pub mod text;
pub mod api;
pub mod archive;
pub mod json;
