//! Random connection identifiers and keys.

use crate::external::fill_random;
use crate::transport::MAX_CONN_ID_LEN;
use vstd::prelude::*;

verus! {

/// Length of the key that a listener derives connection identifiers with: that
/// of a SHA-256 digest.
pub const SEED_LEN: usize = 32;

/// The system provided no random bytes.
#[derive(Clone, Copy, Debug, PartialEq, Eq, Structural)]
pub struct RandomFailure;

fn random_bytes(len: usize) -> (r: Result<Vec<u8>, RandomFailure>)
    requires
        len <= 64,
    ensures
        r matches Ok(bytes) ==> bytes@.len() == len,
{
    take_random(fill_random(len))
}

/// A fresh connection identifier. Whether the system provides the bytes, and
/// which, is up to the system.
pub fn random_connection_id() -> (r: Result<Vec<u8>, RandomFailure>)
    ensures
        r matches Ok(cid) ==> cid@.len() == MAX_CONN_ID_LEN == 20,
{
    random_bytes(MAX_CONN_ID_LEN)
}

/// A fresh key for the connection identifiers of a listener. Whether the system
/// provides the bytes, and which, is up to the system.
pub fn random_seed() -> (r: Result<Vec<u8>, RandomFailure>)
    ensures
        r matches Ok(seed) ==> seed@.len() == SEED_LEN == 32,
{
    random_bytes(SEED_LEN)
}

/// What is made of an attempt to get random bytes: the bytes that came, and a
/// failure if none did.
pub fn take_random(filled: Result<Vec<u8>, ring::error::Unspecified>) -> (r: Result<
    Vec<u8>,
    RandomFailure,
>)
    ensures
        match filled {
            Ok(bytes) => r == Ok::<Vec<u8>, RandomFailure>(bytes),
            Err(_) => r == Err::<Vec<u8>, RandomFailure>(RandomFailure),
        },
{
    match filled {
        Ok(bytes) => Ok(bytes),
        Err(_) => Err(RandomFailure),
    }
}

} // verus!
