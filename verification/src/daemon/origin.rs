//! Public origins and the addresses that the daemon binds.
use vstd::prelude::*;
use crate::text;

verus! {

/// A numeric IP address.
#[derive(Debug, Clone, Copy, PartialEq, Eq, Structural)]
#[allow(inconsistent_fields)]
pub enum IpAddress {
    V4 { bits: u32 },
    V6 { bits: u128 },
}

/// A numeric IP address and a port. The scope belongs to IPv6 addresses, and is zero elsewhere.
#[derive(Debug, Clone, Copy, PartialEq, Eq, Structural)]
pub struct SocketAddress {
    pub ip: IpAddress,
    pub scope_id: u32,
    pub port: u16,
}

/// Whether an address is a loopback address: `127.0.0.0/8` or `::1`.
pub open spec fn is_loopback(ip: IpAddress) -> bool {
    match ip {
        IpAddress::V4 { bits } => bits / 0x100_0000 == 127,
        IpAddress::V6 { bits } => bits == 1,
    }
}

impl IpAddress {
    /// Whether the address is a loopback address.
    pub fn is_loopback(self) -> (yes: bool)
        ensures
            yes == is_loopback(self),
    {
        match self {
            IpAddress::V4 { bits } => bits / 0x100_0000 == 127,
            IpAddress::V6 { bits } => bits == 1,
        }
    }
}

/// The parts of a URI that an origin is made of.
#[derive(Debug, PartialEq, Eq)]
pub struct OriginParts {
    pub scheme: Option<String>,
    pub authority: Option<String>,
    pub port: Option<u16>,
}

/// The model of a URI's parts: its scheme, its authority and its port.
pub struct PartsModel {
    pub scheme: Option<Seq<char>>,
    pub authority: Option<Seq<char>>,
    pub port: Option<u16>,
}

impl View for OriginParts {
    type V = PartsModel;

    open spec fn view(&self) -> PartsModel {
        PartsModel {
            scheme: match self.scheme {
                Some(value) => Some(value@),
                None => None,
            },
            authority: match self.authority {
                Some(value) => Some(value@),
                None => None,
            },
            port: self.port,
        }
    }
}

/// The view of the parts, where there are any.
pub open spec fn parts_model(parts: Option<OriginParts>) -> Option<PartsModel> {
    match parts {
        Some(value) => Some(value@),
        None => None,
    }
}

/// The scheme, the authority and the authority's port that `axum::http::Uri` reads in a text;
/// none where the text is no URI.
pub uninterp spec fn uri_parts(value: Seq<char>) -> Option<PartsModel>;

/// `axum::http::Uri` reads a text as a URI, and hands out its scheme, its authority and the
/// authority's port where they are there.
#[verifier::external_body]
fn parse_uri(value: &str) -> (parts: Option<OriginParts>)
    ensures
        parts_model(parts) == uri_parts(value@),
{
    let uri = value.parse::<axum::http::Uri>().ok()?;
    Some(
        OriginParts {
            scheme: uri.scheme_str().map(str::to_owned),
            authority: uri.authority().map(|authority| authority.as_str().to_owned()),
            port: uri.authority().and_then(axum::http::uri::Authority::port_u16),
        },
    )
}

/// The parts of a URI, where the text is one.
pub fn origin_parts(value: &str) -> (parts: Option<OriginParts>)
    ensures
        parts_model(parts) == uri_parts(value@),
{
    parse_uri(value)
}

/// The scheme of the parts; the empty text where there is none.
pub open spec fn scheme_of(parts: PartsModel) -> Seq<char> {
    match parts.scheme {
        Some(scheme) => scheme,
        None => ""@,
    }
}

/// What is wrong with a text as a public origin, given its parts: it must be an HTTP or HTTPS
/// scheme, `://` and an authority without user information, and nothing else.
pub open spec fn origin_fault(value: Seq<char>, parts: Option<PartsModel>) -> Option<Seq<char>> {
    match parts {
        None => Some("public_origin must be an HTTP or HTTPS origin"@),
        Some(found) => match found.authority {
            None => Some("public_origin must include an authority"@),
            Some(authority) => {
                let scheme = scheme_of(found);
                if !(scheme == "http"@ || scheme == "https"@) || authority.contains('@') || value
                    != scheme + "://"@ + authority {
                    Some("public_origin must contain only an HTTP or HTTPS origin"@)
                } else {
                    None
                }
            },
        },
    }
}

/// Whether a result is that of a check: success where there is no fault, and otherwise the
/// fault's message.
pub open spec fn tells(result: Result<(), String>, fault: Option<Seq<char>>) -> bool {
    match result {
        Ok(_) => fault is None,
        Err(message) => fault == Some(message@),
    }
}

fn scheme_text(parts: &OriginParts) -> (scheme: String)
    ensures
        scheme@ == scheme_of(parts@),
{
    match &parts.scheme {
        Some(scheme) => text::copy_of(scheme.as_str()),
        None => text::copy_of(""),
    }
}

/// Checks a text as a public origin, given its parts.
pub fn check_origin(value: &str, parts: &Option<OriginParts>) -> (result: Result<(), String>)
    ensures
        tells(result, origin_fault(value@, parts_model(*parts))),
{
    let found = match parts {
        Some(found) => found,
        None => {
            return Err(text::copy_of("public_origin must be an HTTP or HTTPS origin"));
        },
    };
    let authority = match &found.authority {
        Some(authority) => authority,
        None => {
            return Err(text::copy_of("public_origin must include an authority"));
        },
    };
    let scheme = scheme_text(found);
    let known = text::same_text(scheme.as_str(), "http") || text::same_text(
        scheme.as_str(),
        "https",
    );
    let whole = text::joined3(scheme.as_str(), "://", authority.as_str());
    if !known || text::contains_char(authority.as_str(), '@') || !text::same_text(
        value,
        whole.as_str(),
    ) {
        return Err(text::copy_of("public_origin must contain only an HTTP or HTTPS origin"));
    }
    Ok(())
}

/// Checks a text as a public origin.
pub fn validate_public_origin(value: &str) -> (result: Result<(), String>)
    ensures
        tells(result, origin_fault(value@, uri_parts(value@))),
{
    check_origin(value, &origin_parts(value))
}

/// The port of an origin: the one it names, or that of its scheme.
pub open spec fn origin_port(parts: PartsModel) -> u16 {
    match parts.port {
        Some(port) => port,
        None => if scheme_of(parts) == "https"@ {
            443
        } else {
            80
        },
    }
}

/// The port of an origin.
pub fn port_of(parts: &OriginParts) -> (port: u16)
    ensures
        port == origin_port(parts@),
{
    match parts.port {
        Some(port) => port,
        None => {
            if text::same_text(scheme_text(parts).as_str(), "https") {
                443
            } else {
                80
            }
        },
    }
}

/// Whether an origin is an HTTPS origin.
pub fn is_https(parts: &OriginParts) -> (yes: bool)
    ensures
        yes == (scheme_of(parts@) == "https"@),
{
    text::same_text(scheme_text(parts).as_str(), "https")
}

} // verus!
