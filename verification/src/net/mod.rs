//! The connection to the server, as far as it can be told without a socket:
//! how to reach the server, and the phases that a connection goes through.

use vstd::prelude::*;
use url::Url;
use crate::error::NatsError;

pub mod connection;
pub mod tls;

verus! {

#[verifier::external_type_specification]
#[verifier::external_body]
pub struct ExUrl(url::Url);

/// What `Url::parse` makes of a text: the URL, or why the text is none.
pub uninterp spec fn url_parsed(input: Seq<char>) -> Result<Url, url::ParseError>;

/// The host that a URL names, if it names one.
pub uninterp spec fn url_host(url: Url) -> Option<Seq<char>>;

/// `Url::parse` reads a text as an absolute URL. Its answer depends on the
/// text alone.
pub assume_specification[ Url::parse ](input: &str) -> (r: Result<Url, url::ParseError>)
    ensures
        r == url_parsed(input@),
;

/// `Url::host_str` gives the host of a URL as text, where the URL has one.
pub assume_specification<'a>[ Url::host_str ](url: &'a Url) -> (r: Option<&'a str>)
    ensures
        match r {
            Some(host) => url_host(*url) == Some(host@),
            None => url_host(*url) is None,
        },
;

/// How the server is to be reached.
#[derive(Debug, Clone, PartialEq)]
pub enum Transport {
    /// Over plain TCP
    Tcp,
    /// Over TLS on top of TCP; the host's name is needed to check the
    /// server's identity
    Tls { host: String },
}

/// A `Transport` as plain values.
pub enum TransportView {
    Tcp,
    Tls { host: Seq<char> },
}

impl View for Transport {
    type V = TransportView;

    open spec fn view(&self) -> TransportView {
        match *self {
            Transport::Tcp => TransportView::Tcp,
            Transport::Tls { host } => TransportView::Tls { host: host@ },
        }
    }
}

/// The transport that the options ask for, given what the URL parser makes
/// of the cluster's address. Without TLS the address is not read as a URL
/// at all. With TLS it must be a URL that names a host.
pub open spec fn transport_of(tls_required: bool, parsed: Result<Url, url::ParseError>) -> Result<
    TransportView,
    NatsError,
> {
    if !tls_required {
        Ok(TransportView::Tcp)
    } else {
        match parsed {
            Err(e) => Err(NatsError::UrlParseError(e)),
            Ok(url) => match url_host(url) {
                Some(host) => Ok(TransportView::Tls { host }),
                None => Err(NatsError::TlsHostMissingError),
            },
        }
    }
}

/// Decides how to reach the server.
pub fn transport_for(tls_required: bool, cluster_uri: &str) -> (r: Result<Transport, NatsError>)
    ensures
        match r {
            Ok(t) => transport_of(tls_required, url_parsed(cluster_uri@)) == Ok::<
                TransportView,
                NatsError,
            >(t@),
            Err(e) => transport_of(tls_required, url_parsed(cluster_uri@)) == Err::<
                TransportView,
                NatsError,
            >(e),
        },
{
    if !tls_required {
        return Ok(Transport::Tcp);
    }
    match Url::parse(cluster_uri) {
        Err(e) => Err(NatsError::UrlParseError(e)),
        Ok(url) => match url.host_str() {
            Some(host) => Ok(Transport::Tls { host: host.to_owned() }),
            None => Err(NatsError::TlsHostMissingError),
        },
    }
}

} // verus!
