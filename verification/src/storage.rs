//! The download side of the pipeline: the immutable settings every download
//! task shares, built once and validated before any network work starts.

use vstd::prelude::*;

use crate::globset::{is_valid_glob, GlobPatternSet};
use crate::PipelineError;

verus! {

/// Everything the concurrent download tasks share, read-only after
/// construction: the storage endpoint, static credentials, the local target
/// root, and the validated glob pattern set.
#[derive(Debug)]
pub struct StorageSettings {
    pub endpoint_url: String,
    pub access_key_id: String,
    pub secret_access_key: String,
    pub target_root: String,
    pub patterns: GlobPatternSet,
}

impl StorageSettings {
    /// Builds the shared settings from flat configuration values, validating
    /// every glob pattern. A single pattern that does not compile fails the
    /// whole construction with `InvalidGlobPattern`, before any network
    /// activity.
    pub fn new(
        endpoint_url: String,
        access_key_id: String,
        secret_access_key: String,
        target_root: String,
        glob_patterns: Vec<String>,
    ) -> (r: Result<StorageSettings, PipelineError>)
        ensures
            r is Ok <==> (forall|i: int|
                0 <= i < glob_patterns@.len() ==> is_valid_glob(#[trigger] glob_patterns@[i]@)),
            r matches Ok(s) ==> s.endpoint_url == endpoint_url && s.access_key_id == access_key_id
                && s.secret_access_key == secret_access_key && s.target_root == target_root
                && s.patterns@ == glob_patterns.deep_view(),
            r is Err ==> r == Err::<StorageSettings, PipelineError>(
                PipelineError::InvalidGlobPattern,
            ),
    {
        let patterns = match GlobPatternSet::new(glob_patterns) {
            Ok(p) => p,
            Err(e) => {
                return Err(e);
            },
        };
        Ok(StorageSettings { endpoint_url, access_key_id, secret_access_key, target_root, patterns })
    }
}

} // verus!
