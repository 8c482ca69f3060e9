//! A client for a configuration service that watches a set of entries by long
//! polling: it locates the configuration server, signs each request, writes
//! and reads the probe format, and keeps a fingerprint per entry.
use vstd::prelude::*;

pub mod acm;
pub mod address;
pub mod codec;
pub mod error;
pub mod signer;
pub mod table;
pub mod text;

pub use acm::{Acm, WatchAction, WatchEvent, FETCH_TIMEOUT_SECS, PROBE_TIMEOUT_SECS};
pub use address::{address_url, get_acm_server, Ipv4Addr};
pub use error::Error;
pub use table::fingerprint;

verus! {

/// Identity of the tenant group whose entries are watched.
#[derive(Clone, Debug, PartialEq, Eq, Hash)]
pub struct AcmGroup {
    pub access_key: String,
    pub secret_key: String,
    pub namespace: String,
    pub group: String,
}

} // verus!
