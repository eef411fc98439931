//! The resolved configuration values the pipeline consumes. Reading and
//! decoding configuration files is a caller's concern; the pipeline only sees
//! these plain values.

use vstd::prelude::*;

verus! {

/// The default search endpoint.
pub fn default_opensearch_endpoint() -> (r: String)
    ensures
        r@ == "https://catalogue.dataspace.copernicus.eu/resto/api/collections/"@,
{
    "https://catalogue.dataspace.copernicus.eu/resto/api/collections/".to_owned()
}

/// The default object-storage endpoint.
pub fn default_s3_endpoint() -> (r: String)
    ensures
        r@ == "https://eodata.dataspace.copernicus.eu/"@,
{
    "https://eodata.dataspace.copernicus.eu/".to_owned()
}

/// The object-storage access block: endpoint and static credentials.
pub struct KeysConfiguration {
    pub endpoint_url: String,
    pub access_key_id: String,
    pub secret_access_key: String,
}

impl Default for KeysConfiguration {
    /// The default storage endpoint with placeholder credentials.
    fn default() -> (r: Self)
        ensures
            r.endpoint_url@ == "https://eodata.dataspace.copernicus.eu/"@,
            r.access_key_id@ == "not-set"@,
            r.secret_access_key@ == "not-set"@,
    {
        KeysConfiguration {
            endpoint_url: default_s3_endpoint(),
            access_key_id: "not-set".to_owned(),
            secret_access_key: "not-set".to_owned(),
        }
    }
}

/// The query and download configuration: where to search, what to ask for,
/// whether to follow pagination, and which objects to keep.
pub struct Configuration {
    pub endpoint_url: String,
    pub collection: Option<String>,
    pub query: Vec<(String, String)>,
    pub depaginate: bool,
    pub glob_patterns: Vec<String>,
}

impl Default for Configuration {
    /// The default search endpoint, no collection, no query parameters, no
    /// depagination, and no glob patterns.
    fn default() -> (r: Self)
        ensures
            r.endpoint_url@ == "https://catalogue.dataspace.copernicus.eu/resto/api/collections/"@,
            r.collection is None,
            r.query@.len() == 0,
            r.depaginate == false,
            r.glob_patterns@.len() == 0,
    {
        Configuration {
            endpoint_url: default_opensearch_endpoint(),
            collection: None,
            query: Vec::new(),
            depaginate: false,
            glob_patterns: Vec::new(),
        }
    }
}

} // verus!
