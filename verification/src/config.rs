//! The process configuration the service runs with: the credentials and
//! endpoints of the object store, the relational store and the key-value
//! cache.  Reading it from the process environment is the unverified
//! shell's job; the library only holds the values.

use vstd::prelude::*;

verus! {

/// The connection settings for the three downstream dependencies.
#[derive(Clone)]
pub struct AppConfig {
    /// Access key for the object store's API.
    pub aws_access_key_id: String,
    /// Secret key for the object store's API.
    pub aws_secret_access_key: String,
    /// Region of the object store.
    pub aws_region: String,
    /// Bucket the bundles are stored in.
    pub s3_bucket_name: String,
    /// Connection URL of the relational store.
    pub database_url: String,
    /// Connection URL of the key-value cache.
    pub redis_url: String,
}

impl AppConfig {
    /// Packs the six connection settings into a configuration.
    pub fn new(
        aws_access_key_id: String,
        aws_secret_access_key: String,
        aws_region: String,
        s3_bucket_name: String,
        database_url: String,
        redis_url: String,
    ) -> (r: AppConfig)
        ensures
            r.aws_access_key_id@ == aws_access_key_id@,
            r.aws_secret_access_key@ == aws_secret_access_key@,
            r.aws_region@ == aws_region@,
            r.s3_bucket_name@ == s3_bucket_name@,
            r.database_url@ == database_url@,
            r.redis_url@ == redis_url@,
    {
        AppConfig {
            aws_access_key_id,
            aws_secret_access_key,
            aws_region,
            s3_bucket_name,
            database_url,
            redis_url,
        }
    }
}

} // verus!
