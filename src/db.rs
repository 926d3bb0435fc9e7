use vstd::prelude::*;

verus! {

#[verifier::external_type_specification]
#[verifier::external_body]
pub struct ExClient(redis::Client);

#[verifier::external_type_specification]
#[verifier::external_body]
pub struct ExRedisError(redis::RedisError);

/// Whether the redis client accepts `addr` as a connection URL.
pub uninterp spec fn redis_url_accepted(addr: Seq<char>) -> bool;

/// Relies on `redis::Client::open` for a `&str`: it parses the text as a
/// redis URL and makes no connection, so the outcome depends on the text
/// alone; an empty text is no URL.
#[verifier::external_body]
fn open_client(addr: &str) -> (r: Result<redis::Client, redis::RedisError>)
    ensures
        r is Ok <==> redis_url_accepted(addr@),
        addr@.len() == 0 ==> r is Err,
{
    redis::Client::open(addr)
}

/// A client for the storage backend at `addr`, such as
/// `redis://127.0.0.1:6379/`. No connection is made here.
pub fn create_redis_client(addr: &str) -> (r: Result<redis::Client, redis::RedisError>)
    ensures
        r is Ok <==> redis_url_accepted(addr@),
        addr@.len() == 0 ==> r is Err,
{
    open_client(addr)
}

} // verus!
