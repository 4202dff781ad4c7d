//! The requests a client makes and the responses a server gives.
//!
//! Each stream carries one exchange:
//! - service id lookup: `RequestKind::ServiceId` out, `ServiceIdRequestResult` back;
//! - service call: `RequestKind::ServiceCall` and the argument bytes out,
//!   `ServiceCallRequestResult` and (on success) the return bytes back;
//! - deallocation: `RequestKind::DeallocatePrivateService` out,
//!   `PrivateServiceDeallocateRequestResult` back.
use vstd::prelude::*;

verus! {

/// Kind of service.
#[derive(Debug, Clone, Copy, PartialEq, Eq, Structural)]
pub enum ServiceKind {
    /// A service registered on the server, found by a service id request.
    Public,
    /// A service minted for one connection, reached only through a `ServiceRef`.
    Private,
}

/// Requests that can be made. Strings and byte fields borrow from the buffer
/// that the request was decoded from.
#[derive(Debug)]
pub enum RequestKind<'a> {
    /// Request to retrieve a public service's id.
    ServiceId {
        /// Name of service
        name: &'a str,
        /// Checksum of service
        checksum: &'a [u8],
    },
    /// Request to call a service's function; the arguments follow as one raw
    /// byte range made of parts of the announced sizes.
    ServiceCall {
        /// Kind of service
        kind: ServiceKind,
        /// Service id
        id: u32,
        /// Service's function id
        function_id: u32,
        /// Sizes of the argument parts
        part_sizes: Vec<u32>,
    },
    /// Request to deallocate a private service.
    DeallocatePrivateService {
        /// Private service id
        id: u32,
    },
}

/// Mathematical form of a request.
pub enum RequestSpec {
    ServiceId { name: Seq<char>, checksum: Seq<u8> },
    ServiceCall { kind: ServiceKind, id: u32, function_id: u32, part_sizes: Seq<u32> },
    DeallocatePrivateService { id: u32 },
}

impl<'a> View for RequestKind<'a> {
    type V = RequestSpec;

    open spec fn view(&self) -> RequestSpec {
        match self {
            RequestKind::ServiceId { name, checksum } => RequestSpec::ServiceId {
                name: name@,
                checksum: checksum@,
            },
            RequestKind::ServiceCall { kind, id, function_id, part_sizes } =>
                RequestSpec::ServiceCall {
                kind: *kind,
                id: *id,
                function_id: *function_id,
                part_sizes: part_sizes@,
            },
            RequestKind::DeallocatePrivateService { id } =>
                RequestSpec::DeallocatePrivateService { id: *id },
        }
    }
}

/// Successful result of finding a service, containing its service id.
#[derive(Debug, Clone, Copy, PartialEq, Eq, Structural)]
pub struct ServiceFound(pub u32);

/// Errors that may occur on remote host while executing service id request.
#[derive(Debug, Clone, Copy, PartialEq, Eq, Structural)]
pub enum RemoteServiceIdRequestError {
    /// Indicates that the requested service was not found.
    ServiceNotFound,
    /// Indicates that service found but checksum doesn't match.
    InvalidChecksum,
}

/// Errors that may occur on remote host while executing service call.
#[derive(Debug, Clone, Copy, PartialEq, Eq, Structural)]
pub enum ServiceCallRequestError {
    /// Indicates that the service call was invoked with an invalid service ID.
    InvalidServiceId,
    /// Indicates that the service call was invoked with an invalid function ID.
    InvalidFunctionId,
    /// Indicates a failure in decoding the function arguments.
    ArgsDecode,
    /// Indicates a failure caused by internal server errors.
    ServerInternal,
}

/// Error that may occur while trying to deallocate private service.
#[derive(Debug, Clone, Copy, PartialEq, Eq, Structural)]
pub struct InvalidPrivateServiceIdError;

/// Response on service id request
pub type ServiceIdRequestResult = Result<ServiceFound, RemoteServiceIdRequestError>;

/// Response on service call request: the sizes of the returned parts.
pub type ServiceCallRequestResult = Result<Vec<u32>, ServiceCallRequestError>;

/// Response on private service deallocation request
pub type PrivateServiceDeallocateRequestResult = Result<(), InvalidPrivateServiceIdError>;

/// Mathematical form of a service call response.
pub open spec fn call_result_view(r: ServiceCallRequestResult) -> Result<
    Seq<u32>,
    ServiceCallRequestError,
> {
    match r {
        Ok(sizes) => Ok(sizes@),
        Err(e) => Err(e),
    }
}

} // verus!
