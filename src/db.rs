//! Connection settings of the datastore.
use vstd::prelude::*;

verus! {

/// Where and as whom to connect.
#[derive(Clone, Debug, PartialEq, Eq)]
pub struct DatabaseConfig {
    pub url: String,
    pub namespace: String,
    pub database: String,
    pub username: String,
    pub password: String,
}

} // verus!
