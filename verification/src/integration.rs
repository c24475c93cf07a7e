//! Integration catalog.
//!
//! The node advertises the external accounts it can connect.  Probing the
//! control plane for their live status is the caller's business; the
//! catalog itself, and the OAuth URL a connection starts from, are here.

use vstd::prelude::*;
use vstd::string::*;

verus! {

/// One connectable integration, with its live connection status.
pub struct Integration {
    pub id: String,
    pub name: String,
    pub icon: String,
    pub description: String,
    pub connected: bool,
    pub email: Option<String>,
    pub connected_at: Option<String>,
    pub required_for: Vec<String>,
    pub scopes: Vec<String>,
}

/// The OAuth connect URL for an integration; only the mail integration
/// has one.
pub fn generate_oauth_url(integration_id: &str, user_id: &str, control_plane_url: &str) -> (r:
    Option<String>)
    ensures
        integration_id@ == "gmail"@ ==> (r matches Option::Some(u) && u@ == control_plane_url@
            + "/oauth/google?user="@ + user_id@ + "&source=node"@),
        integration_id@ != "gmail"@ ==> r is None,
{
    if crate::text::str_eq(integration_id, "gmail") {
        let mut u = String::from_str(control_plane_url);
        u.append("/oauth/google?user=");
        u.append(user_id);
        u.append("&source=node");
        Option::Some(u)
    } else {
        Option::None
    }
}

fn two_strings(a: &str, b: &str) -> (r: Vec<String>)
    ensures
        r@.len() == 2,
        r@[0]@ == a@,
        r@[1]@ == b@,
{
    let mut v: Vec<String> = Vec::new();
    v.push(String::from_str(a));
    v.push(String::from_str(b));
    v
}

/// The catalog of integrations: mail with its probed status, calendar and
/// team chat not yet connectable.
pub fn get_integrations_list(
    gmail_connected: bool,
    gmail_email: Option<String>,
    gmail_connected_at: Option<String>,
) -> (r: Vec<Integration>)
    ensures
        r@.len() == 3,
        r@[0].id@ == "gmail"@,
        r@[0].connected == gmail_connected,
        r@[0].email == gmail_email,
        r@[0].connected_at == gmail_connected_at,
        r@[1].id@ == "google_calendar"@,
        !r@[1].connected,
        r@[2].id@ == "slack"@,
        !r@[2].connected,
{
    let mut v: Vec<Integration> = Vec::new();
    v.push(
        Integration {
            id: String::from_str("gmail"),
            name: String::from_str("Gmail"),
            icon: String::from_str("email"),
            description: String::from_str("Send and read emails via Gmail"),
            connected: gmail_connected,
            email: gmail_email,
            connected_at: gmail_connected_at,
            required_for: two_strings("email sending", "email reading"),
            scopes: two_strings("gmail.send", "gmail.readonly"),
        },
    );
    v.push(
        Integration {
            id: String::from_str("google_calendar"),
            name: String::from_str("Google Calendar"),
            icon: String::from_str("calendar"),
            description: String::from_str("Manage calendar events and scheduling"),
            connected: false,
            email: Option::None,
            connected_at: Option::None,
            required_for: two_strings("calendar events", "meeting scheduling"),
            scopes: two_strings("calendar.readonly", "calendar.events"),
        },
    );
    v.push(
        Integration {
            id: String::from_str("slack"),
            name: String::from_str("Slack"),
            icon: String::from_str("chat"),
            description: String::from_str("Send messages and notifications to Slack"),
            connected: false,
            email: Option::None,
            connected_at: Option::None,
            required_for: two_strings("team notifications", "channel messages"),
            scopes: two_strings("chat:write", "channels:read"),
        },
    );
    v
}

} // verus!
