//! The requests a pull is made of: their addresses, their credentials, and
//! the reading of their status.

use vstd::prelude::*;
use vstd::string::*;

verus! {

/// The user name under which the credential is presented to the token
/// endpoint; the credential itself is the password.
pub const TOKEN_USER: &'static str = "_token";

/// Whether an HTTP status reports success.
pub open spec fn success(status: u16) -> bool {
    200 <= status <= 299
}

/// Whether an HTTP status reports success.
pub fn is_success(status: u16) -> (r: bool)
    ensures
        r == success(status),
{
    200 <= status && status <= 299
}

/// The address of the token exchange for pulling `image`:
/// `{auth_base}/v2/token?scope=repository:{image}:pull`.
pub fn token_url(auth_base: &str, image: &str) -> (url: String)
    ensures
        url@ == auth_base@ + "/v2/token?scope=repository:"@ + image@ + ":pull"@,
{
    String::from_str(auth_base).concat("/v2/token?scope=repository:").concat(image).concat(":pull")
}

/// The address of the manifest of `image` at `tag`:
/// `{registry_base}/v2/{image}/manifests/{tag}`.
pub fn manifest_url(registry_base: &str, image: &str, tag: &str) -> (url: String)
    ensures
        url@ == registry_base@ + "/v2/"@ + image@ + "/manifests/"@ + tag@,
{
    String::from_str(registry_base).concat("/v2/").concat(image).concat("/manifests/").concat(tag)
}

/// The address of the blob `digest` of `image`:
/// `{registry_base}/v2/{image}/blobs/{digest}`.
pub fn blob_url(registry_base: &str, image: &str, digest: &str) -> (url: String)
    ensures
        url@ == registry_base@ + "/v2/"@ + image@ + "/blobs/"@ + digest@,
{
    String::from_str(registry_base).concat("/v2/").concat(image).concat("/blobs/").concat(digest)
}

/// The value of the `Authorization` header that presents `token`:
/// `Bearer {token}`.
pub fn bearer(token: &str) -> (value: String)
    ensures
        value@ == "Bearer "@ + token@,
{
    String::from_str("Bearer ").concat(token)
}

} // verus!
