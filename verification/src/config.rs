//! The service configuration, as read from the environment by the binary.

use vstd::prelude::*;

verus! {

/// Every setting the service runs with.  The binary fills it from the
/// environment; the library only carries the values.
#[derive(Debug, Clone)]
pub struct Config {
    pub database_url: String,
    pub jwt_secret_key: String,
    pub jwt_refresh_token: i64,
    pub jwt_expire_in: i64,
    pub api_key: String,
    pub email: String,
    pub password: String,
    pub cloudflare_api_token: String,
    pub cloudflare_secret: String,
    pub s3_endpoint: String,
    pub s3_bucket: String,
    pub cdn_url: String,
    pub port: String,
}

} // verus!
