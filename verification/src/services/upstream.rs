use vstd::prelude::*;
use vstd::string::StringExecFns;
use hyper::Uri;
use crate::domain::error::LoadBalancerError;
use crate::services::headers::value_accepted;

verus! {

/// The host of the URI that `text` spells, as `Uri::from_str` and
/// `Uri::host` give it. `None` where the text is no URI or the URI has no
/// authority.
pub uninterp spec fn uri_host(text: Seq<char>) -> Option<Seq<char>>;

/// The port number of the URI that `text` spells, as `Uri::from_str` and
/// `Uri::port_u16` give it. `None` where the text is no URI or the URI
/// names no port.
pub uninterp spec fn uri_port(text: Seq<char>) -> Option<u16>;

/// The authority of the URI that `text` spells, as `Uri::from_str` and
/// `Uri::authority` give it. `None` where the text is no URI or the URI
/// has no authority.
pub uninterp spec fn uri_authority(text: Seq<char>) -> Option<Seq<char>>;

/// The character that stands for a digit.
pub open spec fn digit(value: nat) -> char {
    ((48 + value) as u8) as char
}

/// A number written in decimal, without leading zeros.
pub open spec fn decimal(number: nat) -> Seq<char>
    decreases number,
{
    if number < 10 {
        seq![digit(number)]
    } else {
        decimal(number / 10).push(digit(number % 10))
    }
}

/// `Uri::from_str`, then `Uri::host`, copied into a string.
#[verifier::external_body]
fn parse_host(text: &str) -> (host: Option<String>)
    ensures
        host is Some <==> uri_host(text@) is Some,
        host matches Some(h) ==> uri_host(text@) == Some(h@),
{
    match text.parse::<Uri>() {
        Ok(uri) => uri.host().map(|host| host.to_owned()),
        Err(_) => None,
    }
}

/// `Uri::from_str`, then `Uri::port_u16`.
#[verifier::external_body]
fn parse_port(text: &str) -> (port: Option<u16>)
    ensures
        port == uri_port(text@),
{
    match text.parse::<Uri>() {
        Ok(uri) => uri.port_u16(),
        Err(_) => None,
    }
}

/// `Uri::from_str`, then `Uri::authority`, copied into a string. The
/// parser admits only visible ASCII characters in an authority, so the
/// bytes of an authority are the value of a header.
#[verifier::external_body]
fn parse_authority(text: &str) -> (authority: Option<String>)
    ensures
        authority is Some <==> uri_authority(text@) is Some,
        authority matches Some(a) ==> uri_authority(text@) == Some(a@),
        authority matches Some(a) ==> value_accepted(vstd::utf8::encode_utf8(a@)),
{
    match text.parse::<Uri>() {
        Ok(uri) => uri.authority().map(|authority| authority.as_str().to_owned()),
        Err(_) => None,
    }
}

/// `u16::to_string`: the number written in decimal.
#[verifier::external_body]
fn port_text(port: u16) -> (text: String)
    ensures
        text@ == decimal(port as nat),
{
    port.to_string()
}

/// Host and port joined by a colon: the address to connect to.
pub fn socket_address(host: &str, port: u16) -> (address: String)
    ensures
        address@ == host@ + seq![':'] + decimal(port as nat),
{
    let mut address = host.to_owned();
    address.append(":");
    let digits = port_text(port);
    address.append(digits.as_str());
    proof {
        reveal_strlit(":");
        assert(":"@ =~= seq![':']);
    }
    address
}

/// Where the request for one worker goes.
pub struct UpstreamTarget {
    /// The URL of the upstream request: the worker's base URL with the
    /// path and query of the inbound request behind it.
    pub uri: String,
    /// The host to connect to.
    pub host: String,
    /// The port to connect to.
    pub port: u16,
    /// Host and port as the URL spells them: the value of the `Host`
    /// header.
    pub authority: String,
    /// Host and port joined by a colon: the address to connect to.
    pub address: String,
}

/// An [`UpstreamTarget`] as the contracts speak of it.
pub struct TargetView {
    pub uri: Seq<char>,
    pub host: Seq<char>,
    pub port: u16,
    pub authority: Seq<char>,
    pub address: Seq<char>,
}

impl View for UpstreamTarget {
    type V = TargetView;

    open spec fn view(&self) -> TargetView {
        TargetView {
            uri: self.uri@,
            host: self.host@,
            port: self.port,
            authority: self.authority@,
            address: self.address@,
        }
    }
}

/// The URL of the upstream request: the path and query of the inbound
/// request, if it has one, appended to the worker's base URL.
pub open spec fn upstream_uri(address: Seq<char>, path_and_query: Option<Seq<char>>) -> Seq<char> {
    match path_and_query {
        Some(path) => address + path,
        None => address,
    }
}

/// The target that a URL and its parts make. There is none unless the URL
/// has a host, a port and an authority.
pub open spec fn target_of(
    uri: Seq<char>,
    host: Option<Seq<char>>,
    port: Option<u16>,
    authority: Option<Seq<char>>,
) -> Option<TargetView> {
    match (host, port, authority) {
        (Some(host), Some(port), Some(authority)) => Some(
            TargetView {
                uri,
                host,
                port,
                authority,
                address: host + seq![':'] + decimal(port as nat),
            },
        ),
        _ => None,
    }
}

/// The target of the URL `text`, from what the URI parser makes of it.
pub open spec fn parsed_target(text: Seq<char>) -> Option<TargetView> {
    target_of(text, uri_host(text), uri_port(text), uri_authority(text))
}

/// Puts a target together from a URL and the parts that were read from
/// it. A URL without host, port or authority is an `InvalidAddress`.
pub fn make_target(
    uri: String,
    host: Option<String>,
    port: Option<u16>,
    authority: Option<String>,
) -> (target: Result<UpstreamTarget, LoadBalancerError>)
    ensures
        match target_of(
            uri@,
            match host {
                Some(h) => Some(h@),
                None => None,
            },
            port,
            match authority {
                Some(a) => Some(a@),
                None => None,
            },
        ) {
            Some(view) => target is Ok && target->Ok_0@ == view,
            None => target is Err && target->Err_0 is InvalidAddress,
        },
{
    match (host, port, authority) {
        (Some(host), Some(port), Some(authority)) => {
            let address = socket_address(host.as_str(), port);
            Ok(UpstreamTarget { uri, host, port, authority, address })
        },
        _ => Err(LoadBalancerError::InvalidAddress),
    }
}

/// Works out where a request goes: appends its path and query to the
/// worker's base URL and reads host, port and authority from the result.
///
/// The answer is `InvalidAddress` exactly when the result is no URL with a
/// host and a port. The authority of a target can always stand as the
/// value of a header.
pub fn upstream_target(address_ip: &str, path_and_query: Option<&str>) -> (target: Result<
    UpstreamTarget,
    LoadBalancerError,
>)
    ensures
        target matches Ok(found) ==> value_accepted(vstd::utf8::encode_utf8(found.authority@)),
        match parsed_target(
            upstream_uri(
                address_ip@,
                match path_and_query {
                    Some(path) => Some(path@),
                    None => None,
                },
            ),
        ) {
            Some(view) => target is Ok && target->Ok_0@ == view,
            None => target is Err && target->Err_0 is InvalidAddress,
        },
{
    let mut worker_uri = address_ip.to_owned();
    if let Some(path) = path_and_query {
        worker_uri.append(path);
    }
    let host = parse_host(worker_uri.as_str());
    let port = parse_port(worker_uri.as_str());
    let authority = parse_authority(worker_uri.as_str());
    make_target(worker_uri, host, port, authority)
}

} // verus!
