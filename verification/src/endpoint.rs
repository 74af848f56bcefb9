use crate::outcome::UploadError;
use vstd::prelude::*;
use vstd::string::StringExecFns;

verus! {

/// Base URL and bearer credentials of the storage gateway. Shared read-only by
/// every upload issued in one batch; never mutated during a batch.
#[derive(Debug)]
pub struct GatewayEndpoint {
    pub url: String,
    pub id: String,
    pub secret: String,
}

impl GatewayEndpoint {
    /// A configuration is usable when the base URL and both credential parts
    /// are present (non-empty).
    pub open spec fn valid_config(url: Seq<char>, id: Seq<char>, secret: Seq<char>) -> bool {
        url.len() > 0 && id.len() > 0 && secret.len() > 0
    }

    /// Validates the configuration once, before any upload begins: an invalid
    /// base URL or missing credentials is the one fatal error of the pipeline.
    pub fn new(url: String, id: String, secret: String) -> (r: Result<GatewayEndpoint, UploadError>)
        ensures
            Self::valid_config(url@, id@, secret@) <==> r is Ok,
            r matches Ok(e) ==> e.url@ == url@ && e.id@ == id@ && e.secret@ == secret@,
            r matches Err(er) ==> er@ is Configuration,
    {
        if url.as_str().is_empty() || id.as_str().is_empty() || secret.as_str().is_empty() {
            Err(
                UploadError::Configuration {
                    cause: "missing base url or credentials".to_owned(),
                },
            )
        } else {
            Ok(GatewayEndpoint { url, id, secret })
        }
    }

    /// Target of a per-file add request: `{base_url}/api/v0/add`.
    pub fn add_file_url(&self) -> (r: String)
        ensures
            r@ == self.url@ + "/api/v0/add"@,
    {
        self.url.clone().concat("/api/v0/add")
    }

    /// Target of the one directory-wrap request:
    /// `{base_url}/api/v0/add?wrap-with-directory=true`.
    pub fn add_directory_url(&self) -> (r: String)
        ensures
            r@ == self.url@ + "/api/v0/add?wrap-with-directory=true"@,
    {
        self.url.clone().concat("/api/v0/add?wrap-with-directory=true")
    }

    /// Value carried by the `Authorization: Bearer` header: `{id}:{secret}`.
    pub fn bearer_token(&self) -> (r: String)
        ensures
            r@ == self.id@ + ":"@ + self.secret@,
    {
        self.id.clone().concat(":").concat(self.secret.as_str())
    }
}

} // verus!
