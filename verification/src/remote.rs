//! Server addresses: turning a login domain into a server URL, and
//! recovering the server URL from a configuration URL.  The URL grammar
//! itself is the url crate's work, consumed through one trusted parse.

use vstd::prelude::*;
use vstd::string::StrSliceExecFns;
use vstd::string::StringExecFns;
use crate::text;

verus! {

/// The server URL a login domain argument names: a full URL is taken as
/// it stands (trailing separators dropped), anything else is treated as a
/// subdomain of the hosted service.
pub open spec fn parse_domain_spec(domain: Seq<char>) -> Seq<char> {
    let d = text::trim_end_slashes_spec(text::trim_spec(domain));
    if text::has_prefix(d, "http://"@) || text::has_prefix(d, "https://"@) {
        d
    } else {
        "https://"@ + d + ".teamturbo.io"@
    }
}

pub fn parse_domain(domain: &str) -> (r: String)
    ensures
        r@ == parse_domain_spec(domain@),
{
    proof {
        reveal_strlit("http://");
        reveal_strlit("https://");
        reveal_strlit(".teamturbo.io");
    }
    let trimmed = text::trim_spaces(domain);
    let d = text::trim_end_slashes(trimmed.as_str());
    if text::starts_with(d.as_str(), "http://") || text::starts_with(d.as_str(), "https://") {
        d
    } else {
        text::concat3("https://", d.as_str(), ".teamturbo.io")
    }
}

/// The pieces of a parsed URL that the library reads.
pub struct UrlParts {
    pub scheme: String,
    pub host: Option<String>,
    pub port: Option<u16>,
    pub path: String,
}

/// What the url crate's parse returns for a string: its scheme, host,
/// port and path when the string is a valid URL, nothing otherwise.
/// Named only: the parse depends on the string alone.
pub uninterp spec fn url_parts_of(s: Seq<char>) -> Option<UrlParts>;

/// Relies on url's `Url::parse` and the accessors `scheme`, `host_str`,
/// `port` and `path`: the parse of a URL string is a function of the
/// string alone.
#[verifier::external_body]
fn parse_url(s: &str) -> (r: Option<UrlParts>)
    ensures
        r == url_parts_of(s@),
{
    match url::Url::parse(s) {
        Ok(u) => Some(
            UrlParts {
                scheme: u.scheme().to_string(),
                host: u.host_str().map(|h| h.to_string()),
                port: u.port(),
                path: u.path().to_string(),
            },
        ),
        Err(_) => None,
    }
}

/// The development port mapping: on a local host, outside API paths, the
/// standard frontend port is mapped to its backend port; every other port
/// stays.
pub open spec fn mapped_port_spec(host: Seq<char>, port: int, path: Seq<char>) -> int {
    let local = host == "127.0.0.1"@ || host == "localhost"@;
    let api_path = text::has_prefix(path, "/api/"@) || text::has_prefix(path, "/docuram/"@)
        || text::has_prefix(path, "/cli/"@);
    if local && !api_path && port == 3100 {
        3001
    } else {
        port
    }
}

/// The server URL that a set of URL parts names: scheme, host, and the
/// mapped port when one is present.  Parts without a host name none.
pub open spec fn server_url_spec(p: UrlParts) -> Option<Seq<char>> {
    match p.host {
        None => None,
        Some(h) => match p.port {
            None => Some(p.scheme@ + "://"@ + h@),
            Some(pt) => Some(
                p.scheme@ + "://"@ + h@ + ":"@ + text::dec_str_spec(
                    mapped_port_spec(h@, pt as int, p.path@),
                ),
            ),
        },
    }
}

/// Rebuild the server URL from parsed URL parts.
pub fn server_url_from_parts(parts: &UrlParts) -> (r: Option<String>)
    ensures
        match r {
            Some(u) => server_url_spec(*parts) == Some(u@),
            None => server_url_spec(*parts) is None,
        },
{
    proof {
        reveal_strlit("://");
        reveal_strlit(":");
        reveal_strlit("/api/");
        reveal_strlit("/docuram/");
        reveal_strlit("/cli/");
        reveal_strlit("127.0.0.1");
        reveal_strlit("localhost");
    }
    let host = match &parts.host {
        Some(h) => h,
        None => {
            return None;
        },
    };
    let base = text::concat3(parts.scheme.as_str(), "://", host.as_str());
    match parts.port {
        None => Some(base),
        Some(pt) => {
            let local = text::str_eq(host.as_str(), "127.0.0.1") || text::str_eq(
                host.as_str(),
                "localhost",
            );
            let api_path = text::starts_with(parts.path.as_str(), "/api/") || text::starts_with(
                parts.path.as_str(),
                "/docuram/",
            ) || text::starts_with(parts.path.as_str(), "/cli/");
            let mapped: u16 = if local && !api_path && pt == 3100 {
                3001
            } else {
                pt
            };
            let port_str = text::u64_to_dec(mapped as u64);
            let tail = text::concat_str(":", port_str.as_str());
            let r = text::concat_str(base.as_str(), tail.as_str());
            proof {
                assert(r@ =~= server_url_spec(*parts)->Some_0);
            }
            Some(r)
        },
    }
}

/// The server URL behind a configuration URL: the parse's scheme, host
/// and mapped port.  An unparseable URL, or one without a host, names no
/// server.
pub fn extract_server_url(config_url: &str) -> (r: Option<String>)
    ensures
        match url_parts_of(config_url@) {
            Some(p) => match r {
                Some(u) => server_url_spec(p) == Some(u@),
                None => server_url_spec(p) is None,
            },
            None => r is None,
        },
{
    match parse_url(config_url) {
        Some(parts) => server_url_from_parts(&parts),
        None => None,
    }
}

} // verus!
