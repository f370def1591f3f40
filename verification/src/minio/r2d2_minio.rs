//! What a storage connection is opened with.

use vstd::prelude::*;

verus! {

/// The endpoint and the credentials from which the connections of one
/// storage pool are opened.
#[derive(Debug)]
pub struct MinioConnectionManager {
    endpoint: String,
    access_key: String,
    secret_key: String,
}

impl MinioConnectionManager {
    /// The endpoint's URL.
    pub closed spec fn spec_endpoint(&self) -> Seq<char> {
        self.endpoint@
    }

    /// The access key.
    pub closed spec fn spec_access_key(&self) -> Seq<char> {
        self.access_key@
    }

    /// The secret key.
    pub closed spec fn spec_secret_key(&self) -> Seq<char> {
        self.secret_key@
    }

    /// A manager for the given endpoint and credentials.
    pub fn new(endpoint: String, access_key: String, secret_key: String) -> (r: Self)
        ensures
            r.spec_endpoint() == endpoint@,
            r.spec_access_key() == access_key@,
            r.spec_secret_key() == secret_key@,
    {
        MinioConnectionManager { endpoint, access_key, secret_key }
    }

    /// The endpoint's URL.
    pub fn endpoint(&self) -> (r: &String)
        ensures
            r@ == self.spec_endpoint(),
    {
        &self.endpoint
    }

    /// The access key.
    pub fn access_key(&self) -> (r: &String)
        ensures
            r@ == self.spec_access_key(),
    {
        &self.access_key
    }

    /// The secret key.
    pub fn secret_key(&self) -> (r: &String)
        ensures
            r@ == self.spec_secret_key(),
    {
        &self.secret_key
    }
}

} // verus!
