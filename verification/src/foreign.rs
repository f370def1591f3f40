//! The calls into other crates. Each contract here is believed, not
//! proved; each doc comment says what is claimed of the function called.

use rand::seq::SliceRandom;
use vstd::prelude::*;

verus! {

/// The connection manager that `r2d2_redis` builds from a URL. Nothing of
/// its contents is visible here.
#[verifier::external_type_specification]
#[verifier::external_body]
pub struct ExRedisConnectionManager(r2d2_redis::RedisConnectionManager);

/// The error with which the `redis` crate refuses a URL.
#[verifier::external_type_specification]
#[verifier::external_body]
pub struct ExRedisError(r2d2_redis::redis::RedisError);

/// Whether `r2d2_redis::RedisConnectionManager::new` accepts the URL.
pub uninterp spec fn redis_url_accepted(url: Seq<char>) -> bool;

/// The media type that `mime_guess` gives for a path.
pub uninterp spec fn guessed_media_type(path: Seq<char>) -> Seq<char>;

/// `SliceRandom::choose` of `rand`, with the thread's generator: `None`
/// for an empty list, and else a reference to one of its elements. Which
/// one is left open.
#[verifier::external_body]
pub(crate) fn pick_random<T>(list: &Vec<T>) -> (r: Option<&T>)
    ensures
        list@.len() == 0 ==> r is None,
        list@.len() > 0 ==> r is Some && list@.contains(*r.unwrap()),
{
    list.choose(&mut rand::thread_rng())
}

/// `r2d2_redis::RedisConnectionManager::new` on a `redis://` URL. The
/// call parses the URL and opens no connection; whether it accepts the
/// URL depends on the text alone.
#[verifier::external_body]
pub(crate) fn redis_manager(url: String) -> (r: Result<
    r2d2_redis::RedisConnectionManager,
    r2d2_redis::redis::RedisError,
>)
    requires
        "redis://"@.is_prefix_of(url@),
    ensures
        r is Ok <==> redis_url_accepted(url@),
{
    r2d2_redis::RedisConnectionManager::new(url)
}

/// `mime_guess::from_path(..).first_or_octet_stream()` as text: the media
/// type that the crate's table gives for the extension of `path`, and
/// `application/octet-stream` where it gives none. The file system is not
/// touched; the result depends on the text of `path` alone.
#[verifier::external_body]
pub(crate) fn guess_media_type(path: &str) -> (r: String)
    ensures
        r@ == guessed_media_type(path@),
{
    mime_guess::from_path(path).first_or_octet_stream().to_string()
}

} // verus!
