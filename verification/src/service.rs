//! Cache over the embedded key-value store: get/put of encoded image
//! bytes keyed by the decimal form of a request's fingerprint.
//!
//! The store engine is an external collaborator; only its get/put calls
//! are relied on, behind trusted wrappers.  Entries are never updated or
//! deleted here, and there is no eviction, TTL or capacity bound.

use vstd::prelude::*;

use crate::fingerprint::fingerprint;
use crate::fingerprint::fingerprint_key;
use crate::fingerprint::spec_decimal;
use crate::fingerprint::spec_fingerprint;
use crate::request::ImageMeta;
use crate::request::RequestError;

verus! {

#[verifier::external_type_specification]
#[verifier::external_body]
pub struct ExDb(sled::Db);

#[verifier::external_type_specification]
#[verifier::external_body]
pub struct ExSledError(sled::Error);

/// Relies on sled::Tree::get, reached through sled::Db's deref to its
/// default tree: reads the value stored under `key`, if any.  The outcome
/// depends on the store's on-disk state, so nothing is promised of it.
#[verifier::external_body]
fn db_get(db: &sled::Db, key: &Vec<u8>) -> (r: Result<Option<Vec<u8>>, sled::Error>) {
    match db.get(key.as_slice()) {
        Ok(Some(v)) => Ok(Some(v.to_vec())),
        Ok(None) => Ok(None),
        Err(e) => Err(e),
    }
}

/// Relies on sled::Tree::insert, reached through sled::Db's deref to its
/// default tree: stores `value` under `key` and returns the value that
/// was stored there before, if any.
#[verifier::external_body]
fn db_insert(db: &sled::Db, key: &Vec<u8>, value: Vec<u8>) -> (r: Result<
    Option<Vec<u8>>,
    sled::Error,
>) {
    match db.insert(key.as_slice(), value) {
        Ok(Some(v)) => Ok(Some(v.to_vec())),
        Ok(None) => Ok(None),
        Err(e) => Err(e),
    }
}

/// The store key of a request: the decimal digit string of its
/// fingerprint.
pub fn cache_key(meta: &ImageMeta) -> (key: Vec<u8>)
    ensures
        key@ == spec_decimal(spec_fingerprint(meta.config, meta.raw_dimensions@) as nat),
{
    fingerprint_key(fingerprint(meta))
}

/// Looks up the cached image for this request under its fingerprint key.
/// A hit returns the stored bytes unchanged, with no freshness check; a
/// store failure surfaces as `StoreReadError` and is never retried.
pub fn get_from_db(db: &sled::Db, meta: &ImageMeta) -> (r: Result<Option<Vec<u8>>, RequestError>)
    ensures
        r matches Err(e) ==> e == RequestError::StoreReadError,
{
    let key = cache_key(meta);
    match db_get(db, &key) {
        Ok(v) => Ok(v),
        Err(_) => Err(RequestError::StoreReadError),
    }
}

/// Stores freshly rendered image bytes under this request's fingerprint
/// key, returning any previously stored bytes.  A store failure surfaces
/// as `StoreWriteError`: the caller then fails the whole request and the
/// rendered bytes are discarded.
pub fn insert(db: &sled::Db, meta: &ImageMeta, bytes: Vec<u8>) -> (r: Result<
    Option<Vec<u8>>,
    RequestError,
>)
    ensures
        r matches Err(e) ==> e == RequestError::StoreWriteError,
{
    let key = cache_key(meta);
    match db_insert(db, &key, bytes) {
        Ok(v) => Ok(v),
        Err(_) => Err(RequestError::StoreWriteError),
    }
}

} // verus!
