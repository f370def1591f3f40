//! The resolution of a download link: the tenant's bucket, a healthy
//! storage pool, and the request for a presigned URL.
//!
//! The presigned URL itself comes from the storage backend. `resolve`
//! stops at the request for it, and `presigned_link` takes the backend's
//! answer.

use crate::config::warp_config::WarpConfig;
use crate::minio::minio_pool::{chosen, MinioPool, ProbeTarget};
use crate::string_map::StringMap;
use vstd::prelude::*;
use vstd::string::*;

verus! {

/// Why no link could be had.
#[derive(Debug, Clone, Copy, PartialEq, Eq, Structural)]
pub enum LinkError {
    /// The tenant has no healthy storage pool.
    BackendUnavailable,
    /// The storage backend refused to presign.
    LinkGenerationFailed,
}

/// The bucket of each tenant that was asked for before.
#[derive(Debug)]
pub struct BucketCache {
    pub buckets: StringMap<String>,
}

/// What is to be presigned, and on which pool instance.
#[derive(Debug)]
pub struct PresignRequest {
    pub bucket: String,
    pub object_key: String,
    pub target: ProbeTarget,
}

/// The bucket configured for a tenant.
pub open spec fn configured_bucket(config: WarpConfig, key: Seq<char>) -> Option<String> {
    match config.tenant(key) {
        Some(tenant) => tenant.bucket_name,
        None => None,
    }
}

/// The bucket that resolves for `key`: the cached one, else the
/// configured one.
pub open spec fn resolved_bucket(cache: BucketCache, config: WarpConfig, key: Seq<char>) -> Option<
    Seq<char>,
> {
    match cache.buckets.lookup(key) {
        Some(name) => Some(name@),
        None => match configured_bucket(config, key) {
            Some(name) => Some(name@),
            None => None,
        },
    }
}

/// What resolving the bucket of `key` does to the cache: a bucket that
/// was found in the configuration is cached, and nothing else changes.
pub open spec fn cache_filled(before: BucketCache, after: BucketCache, config: WarpConfig, key: Seq<char>) -> bool {
    &&& forall|k: Seq<char>| k != key ==> after.buckets.lookup(k) == before.buckets.lookup(k)
    &&& match before.buckets.lookup(key) {
        Some(name) => after.buckets.lookup(key) == Some(name),
        None => match configured_bucket(config, key) {
            Some(name) => after.buckets.lookup(key) is Some && after.buckets.lookup(
                key,
            ).unwrap()@ == name@,
            None => after.buckets.lookup(key) is None,
        },
    }
    &&& before.buckets.wf() ==> after.buckets.wf()
}

/// The text of an optional text, empty where there is none.
pub open spec fn or_empty(text: Option<Seq<char>>) -> Seq<char> {
    match text {
        Some(t) => t,
        None => Seq::empty(),
    }
}

impl BucketCache {
    /// An empty cache.
    pub fn new() -> (r: Self)
        ensures
            r.buckets.keys().len() == 0,
            r.buckets.wf(),
            forall|k: Seq<char>| r.buckets.lookup(k) is None,
    {
        let r = BucketCache { buckets: StringMap::new() };
        proof {
            assert forall|k: Seq<char>| r.buckets.lookup(k) is None by {
                r.buckets.keys().index_of_first_ensures(k);
            }
        }
        r
    }
}

/// The bucket of the tenant `config_key`: from the cache, or from the
/// configuration, which then fills the cache.
pub fn get_minio_bucket_by_minio_config_key(
    cache: &mut BucketCache,
    config: &WarpConfig,
    config_key: &str,
) -> (r: Option<String>)
    ensures
        match r {
            Some(name) => resolved_bucket(*old(cache), *config, config_key@) == Some(name@),
            None => resolved_bucket(*old(cache), *config, config_key@) is None,
        },
        cache_filled(*old(cache), *final(cache), *config, config_key@),
{
    if let Some(name) = cache.buckets.get(config_key) {
        return Some(name.clone());
    }
    if let Some(bucket_name) = config.bucket_name(config_key.to_owned()) {
        cache.buckets.insert(config_key.to_owned(), bucket_name.clone());
        return Some(bucket_name);
    }
    None
}

/// The request for a presigned URL on a healthy pool of `config_key`.
pub fn generate_minio_share_link<P>(
    pools: &mut MinioPool<P>,
    config_key: &str,
    bucket_name: &str,
    object: &str,
) -> (r: Result<PresignRequest, LinkError>)
    ensures
        match r {
            Ok(request) => {
                &&& request.bucket@ == bucket_name@
                &&& request.object_key@ == object@
                &&& old(pools).groups.keys().index_of_first(config_key@) == Some(
                    request.target.group as int,
                )
                &&& chosen(*old(pools), *final(pools), config_key@, Some(request.target.instance))
            },
            Err(e) => e == LinkError::BackendUnavailable && chosen(
                *old(pools),
                *final(pools),
                config_key@,
                None,
            ),
        },
        final(pools).health() == old(pools).health(),
        old(pools).wf() ==> final(pools).wf(),
{
    let group = pools.group_of(config_key);
    let instance = pools.get_minio_client(config_key);
    match (group, instance) {
        (Some(group), Some(instance)) => Ok(
            PresignRequest {
                bucket: bucket_name.to_owned(),
                object_key: object.to_owned(),
                target: ProbeTarget { group, instance },
            },
        ),
        _ => Err(LinkError::BackendUnavailable),
    }
}

/// Resolves what is to be presigned for an object of a tenant: the
/// tenant's bucket, empty where none resolves, and a healthy pool
/// instance. Without a healthy pool the backend is unavailable.
pub fn get_generate_link_by_config_key_and_object_key<P>(
    cache: &mut BucketCache,
    config: &WarpConfig,
    pools: &mut MinioPool<P>,
    minio_config_key: &str,
    object_key: &str,
) -> (r: Result<PresignRequest, LinkError>)
    ensures
        match r {
            Ok(request) => {
                &&& request.bucket@ == or_empty(
                    resolved_bucket(*old(cache), *config, minio_config_key@),
                )
                &&& request.object_key@ == object_key@
                &&& old(pools).groups.keys().index_of_first(minio_config_key@) == Some(
                    request.target.group as int,
                )
                &&& chosen(
                    *old(pools),
                    *final(pools),
                    minio_config_key@,
                    Some(request.target.instance),
                )
            },
            Err(e) => e == LinkError::BackendUnavailable && chosen(
                *old(pools),
                *final(pools),
                minio_config_key@,
                None,
            ),
        },
        cache_filled(*old(cache), *final(cache), *config, minio_config_key@),
        final(pools).health() == old(pools).health(),
        old(pools).wf() ==> final(pools).wf(),
{
    let bucket_name = match get_minio_bucket_by_minio_config_key(cache, config, minio_config_key) {
        Some(name) => name,
        None => String::new(),
    };
    generate_minio_share_link(pools, minio_config_key, bucket_name.as_str(), object_key)
}

/// The link, once the backend has answered the presign request: its URL,
/// or the failure to generate one.
pub fn presigned_link<E>(answer: Result<String, E>) -> (r: Result<String, LinkError>)
    ensures
        match answer {
            Ok(url) => r == Ok::<String, LinkError>(url),
            Err(_) => r == Err::<String, LinkError>(LinkError::LinkGenerationFailed),
        },
{
    match answer {
        Ok(url) => Ok(url),
        Err(_) => Err(LinkError::LinkGenerationFailed),
    }
}

} // verus!
