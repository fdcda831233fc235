//! Endpoints name the handlers that messages are sent to: a path that starts with
//! the multicast or the rpc scheme.
use vstd::prelude::*;
use vstd::string::*;
use crate::text::{has_prefix, starts_with};

verus! {

pub const MULTI_CAST_SCHEME: &'static str = "/muta/multicast";
pub const RPC_SCHEME: &'static str = "/muta/rpc";

/// Prefixes that select the handler kind when an endpoint handler is registered.
pub const RPC_HANDLER_PREFIX: &'static str = "/muta/rpc/";
pub const MULTI_CAST_HANDLER_PREFIX: &'static str = "/muta/multicast/";

/// Longest accepted endpoint, in bytes.
pub const MAX_ENDPOINT_LENGTH: usize = 120;

#[derive(Debug, Clone, Copy, PartialEq, Eq)]
pub enum EndpointError {
    TooLong,
    UnsupportedScheme(&'static str),
    Invalid(&'static str),
}

#[derive(Debug, Clone, Copy, PartialEq, Eq, Structural)]
pub enum EndpointScheme {
    MultiCast,
    Rpc,
}

/// An endpoint: non-empty, at most [`MAX_ENDPOINT_LENGTH`] bytes, and starting
/// with one of the two schemes.
#[derive(Debug, Clone, Copy)]
pub struct Endpoint(&'static str);

/// Whether `endpoint` is a valid endpoint.
pub open spec fn valid_endpoint(endpoint: &str) -> bool {
    &&& endpoint@.len() != 0
    &&& endpoint.spec_bytes().len() <= MAX_ENDPOINT_LENGTH
    &&& (starts_with(endpoint, MULTI_CAST_SCHEME) || starts_with(endpoint, RPC_SCHEME))
}

/// The scheme of a valid endpoint: multicast when it starts with that scheme.
pub open spec fn scheme_of(endpoint: &str) -> EndpointScheme {
    if starts_with(endpoint, MULTI_CAST_SCHEME) {
        EndpointScheme::MultiCast
    } else {
        EndpointScheme::Rpc
    }
}

impl Endpoint {
    #[verifier::type_invariant]
    spec fn inv(self) -> bool {
        valid_endpoint(self.0)
    }

    pub closed spec fn text(self) -> &'static str {
        self.0
    }

    /// Checks `endpoint`: empty is invalid, then over-long, then an unknown scheme.
    pub fn try_from(endpoint: &'static str) -> (r: Result<Endpoint, EndpointError>)
        ensures
            endpoint@.len() == 0 ==> r == Err::<Endpoint, EndpointError>(EndpointError::Invalid(endpoint)),
            endpoint@.len() != 0 && endpoint.spec_bytes().len() > MAX_ENDPOINT_LENGTH
                ==> r == Err::<Endpoint, EndpointError>(EndpointError::TooLong),
            endpoint@.len() != 0 && endpoint.spec_bytes().len() <= MAX_ENDPOINT_LENGTH
                && !starts_with(endpoint, MULTI_CAST_SCHEME) && !starts_with(endpoint, RPC_SCHEME)
                ==> r == Err::<Endpoint, EndpointError>(EndpointError::UnsupportedScheme(endpoint)),
            r matches Ok(e) ==> e.text() == endpoint,
            r is Ok <==> valid_endpoint(endpoint),
    {
        if endpoint.is_empty() {
            return Err(EndpointError::Invalid(endpoint));
        }
        if endpoint.as_bytes().len() > MAX_ENDPOINT_LENGTH {
            return Err(EndpointError::TooLong);
        }
        if !has_prefix(endpoint, MULTI_CAST_SCHEME) && !has_prefix(endpoint, RPC_SCHEME) {
            return Err(EndpointError::UnsupportedScheme(endpoint));
        }
        Ok(Endpoint(endpoint))
    }

    /// The endpoint's scheme.
    pub fn scheme(&self) -> (r: EndpointScheme)
        ensures
            r == scheme_of(self.text()),
            valid_endpoint(self.text()),
    {
        proof {
            use_type_invariant(self);
        }
        if has_prefix(self.0, MULTI_CAST_SCHEME) {
            EndpointScheme::MultiCast
        } else {
            EndpointScheme::Rpc
        }
    }

    /// The endpoint's text.
    pub fn as_str(&self) -> (r: &'static str)
        ensures
            r == self.text(),
    {
        self.0
    }
}

/// Errors of the network service.
#[derive(Debug, Clone, PartialEq, Eq)]
pub enum NetworkError {
    UnsupportedEndpoint(&'static str),
    /// A service failed; the text of its error.
    Service(String),
    /// Listening failed; the text of its error.
    Listen(String),
}

/// Which service handles an endpoint registered with the network: rpc for
/// `/muta/rpc/...`, multicast for `/muta/multicast/...`, anything else is unsupported.
pub fn endpoint_handler_kind(endpoint: &'static str) -> (r: Result<EndpointScheme, NetworkError>)
    ensures
        starts_with(endpoint, RPC_HANDLER_PREFIX) ==> r == Ok::<EndpointScheme, NetworkError>(EndpointScheme::Rpc),
        !starts_with(endpoint, RPC_HANDLER_PREFIX) && starts_with(endpoint, MULTI_CAST_HANDLER_PREFIX)
            ==> r == Ok::<EndpointScheme, NetworkError>(EndpointScheme::MultiCast),
        !starts_with(endpoint, RPC_HANDLER_PREFIX) && !starts_with(endpoint, MULTI_CAST_HANDLER_PREFIX)
            ==> r == Err::<EndpointScheme, NetworkError>(NetworkError::UnsupportedEndpoint(endpoint)),
{
    if has_prefix(endpoint, RPC_HANDLER_PREFIX) {
        Ok(EndpointScheme::Rpc)
    } else if has_prefix(endpoint, MULTI_CAST_HANDLER_PREFIX) {
        Ok(EndpointScheme::MultiCast)
    } else {
        Err(NetworkError::UnsupportedEndpoint(endpoint))
    }
}

} // verus!
