//! The addresses that pair a phone or open the dashboard.
use vstd::prelude::*;

verus! {

/// The link a phone opens to become a scanner: the server at `host`, port
/// 8080, page `/scanner`, carrying the access token.
pub open spec fn scanner_link(host: Seq<char>, token: Seq<char>) -> Seq<char> {
    "https://"@ + host + ":8080/scanner?token="@ + token
}

/// The link that opens the dashboard on the server's own machine.
pub open spec fn dashboard_link(token: Seq<char>) -> Seq<char> {
    "https://localhost:8080?token="@ + token
}

/// Builds `scanner_link`.
pub fn scanner_url(host: &str, token: &str) -> (url: String)
    ensures
        url@ == scanner_link(host@, token@),
{
    let mut url = String::from_str("https://");
    url.append(host);
    url.append(":8080/scanner?token=");
    url.append(token);
    url
}

/// Builds `dashboard_link`.
pub fn dashboard_url(token: &str) -> (url: String)
    ensures
        url@ == dashboard_link(token@),
{
    let mut url = String::from_str("https://localhost:8080?token=");
    url.append(token);
    url
}

} // verus!
