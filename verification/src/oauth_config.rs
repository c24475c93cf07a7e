//! OAuth credential intake.
//!
//! Saving credentials into an environment file is the caller's business;
//! the shape checks on what a client submits are here.

use vstd::prelude::*;
use vstd::string::*;

use crate::text::{has_prefix, has_suffix};

verus! {

/// Credentials a client submits.
pub struct OAuthConfigRequest {
    pub client_id: String,
    pub client_secret: String,
    pub redirect_uri: String,
}

/// What the intake endpoint answers.
pub struct OAuthConfigResponse {
    pub success: bool,
    pub message: String,
}

/// Validates submitted credentials: the client id must end in the Google
/// application suffix and the secret must begin with its standard prefix.
/// `None` means the shapes are acceptable.
pub fn validate_oauth_credentials(client_id: &str, client_secret: &str) -> (r: Option<String>)
    ensures
        !has_suffix(client_id@, ".apps.googleusercontent.com"@) ==> (r matches Option::Some(e)
            && e@ == "Invalid client ID format"@),
        has_suffix(client_id@, ".apps.googleusercontent.com"@) && !has_prefix(
            client_secret@,
            "GOCSPX-"@,
        ) ==> (r matches Option::Some(e) && e@ == "Invalid client secret format"@),
        has_suffix(client_id@, ".apps.googleusercontent.com"@) && has_prefix(
            client_secret@,
            "GOCSPX-"@,
        ) ==> r is None,
{
    if !crate::text::str_has_suffix(client_id, ".apps.googleusercontent.com") {
        return Option::Some(String::from_str("Invalid client ID format"));
    }
    if !crate::text::str_has_prefix(client_secret, "GOCSPX-") {
        return Option::Some(String::from_str("Invalid client secret format"));
    }
    Option::None
}

} // verus!
