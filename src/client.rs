//! What a client computes around each exchange: the bytes of each request,
//! the multipart that a call's response announces, and what a capability
//! handle owes on drop.
use vstd::prelude::*;
use crate::allocator::ServiceRef;
use crate::codec::{
    decode_call_result, decode_call_result_spec, decode_deallocate_result,
    decode_deallocate_result_spec, decode_service_id_result, decode_service_id_result_spec,
    encode_request, request_bytes, request_encodable, WireEncodeError,
};
use crate::multipart::{sum_sizes, MultipartReceived, MultipartSendable};
use crate::protocol::{
    InvalidPrivateServiceIdError, RemoteServiceIdRequestError, RequestKind, RequestSpec,
    ServiceCallRequestError, ServiceKind,
};
use crate::server::sizes_of;
use crate::wire::{bytes_field, frame, push_all, u32_limit};

verus! {

/// The request fits the format, framed.
pub open spec fn request_sendable(r: RequestSpec) -> bool {
    request_encodable(r) && request_bytes(r).len() <= u32_limit()
}

/// The framed bytes of a request; fails when it does not fit the format.
pub fn framed_request(r: &RequestKind) -> (res: Result<Vec<u8>, WireEncodeError>)
    ensures
        res is Ok <==> request_sendable(r@),
        res is Ok ==> res.unwrap()@ == bytes_field(request_bytes(r@)),
{
    let envelope = encode_request(r)?;
    match frame(envelope.as_slice()) {
        Ok(framed) => Ok(framed),
        Err(_) => Err(WireEncodeError),
    }
}

/// The bytes of a service id request for `name` and `checksum`.
pub fn service_id_request(name: &str, checksum: &[u8]) -> (res: Result<Vec<u8>, WireEncodeError>)
    ensures
        res is Ok <==> request_sendable(RequestSpec::ServiceId { name: name@, checksum: checksum@ }),
        res is Ok ==> res.unwrap()@ == bytes_field(
            request_bytes(RequestSpec::ServiceId { name: name@, checksum: checksum@ }),
        ),
{
    framed_request(&RequestKind::ServiceId { name, checksum })
}

/// The bytes of a service call request: the framed envelope announcing the
/// sizes of the argument parts, then the parts one after another. Fails when
/// a part or the envelope does not fit the format.
pub fn service_call_request(
    kind: ServiceKind,
    id: u32,
    function_id: u32,
    args: &MultipartSendable,
) -> (res: Result<Vec<u8>, WireEncodeError>)
    ensures
        res is Ok <==> (forall|i: int| 0 <= i < args@.len() ==> #[trigger] args@[i].len() <= u32_limit())
            && request_sendable(
            RequestSpec::ServiceCall { kind, id, function_id, part_sizes: sizes_of(args@) },
        ),
        res is Ok ==> res.unwrap()@ == bytes_field(
            request_bytes(
                RequestSpec::ServiceCall { kind, id, function_id, part_sizes: sizes_of(args@) },
            ),
        ) + args@.flatten(),
{
    let part_sizes = match args.part_sizes() {
        Some(sizes) => sizes,
        None => return Err(WireEncodeError),
    };
    assert(part_sizes@ =~= sizes_of(args@));
    let request = RequestKind::ServiceCall { kind, id, function_id, part_sizes };
    let mut out = framed_request(&request)?;
    let body = args.concatenated();
    push_all(&mut out, body.as_slice());
    Ok(out)
}

/// The bytes of a request to deallocate the private service `id`.
pub fn deallocate_request(id: u32) -> (out: Vec<u8>)
    ensures
        out@ == bytes_field(request_bytes(RequestSpec::DeallocatePrivateService { id })),
{
    framed_request(&RequestKind::DeallocatePrivateService { id }).unwrap()
}

/// The first part of a call's returned multipart, which holds a plain call's
/// encoded return value; `None` when the server sent no part.
pub fn first_part(returned: &MultipartReceived) -> (r: Option<&[u8]>)
    ensures
        r is Some <==> returned.sizes().len() > 0,
        r is Some ==> r.unwrap()@ == returned.part_spec(0),
{
    returned.get_part(0)
}

/// A client-side handle on a remote service: its kind and id.
#[derive(Debug, Clone, Copy, PartialEq, Eq, Structural)]
pub struct ServiceHandle {
    /// Kind of the service
    pub kind: ServiceKind,
    /// Service id
    pub id: u32,
}

impl ServiceHandle {
    /// The handle on the public service `id`.
    pub fn public(id: u32) -> (r: ServiceHandle)
        ensures
            r == (ServiceHandle { kind: ServiceKind::Public, id }),
    {
        ServiceHandle { kind: ServiceKind::Public, id }
    }

    /// The id whose deallocation dropping this handle must request: a private
    /// service's id; nothing for a public service.
    pub fn deallocation_on_drop(&self) -> (r: Option<u32>)
        ensures
            r == (if self.kind == ServiceKind::Private {
                Some(self.id)
            } else {
                None
            }),
    {
        match self.kind {
            ServiceKind::Private => Some(self.id),
            ServiceKind::Public => None,
        }
    }
}

impl ServiceRef {
    /// The handle on the private service that this reference names, when its
    /// checksum is the one that the client expects and its id fits a `u32`.
    pub fn into_handle(self, expected_checksum: &[u8]) -> (r: Option<ServiceHandle>)
        ensures
            r is Some <==> self.service_checksum@ == expected_checksum@ && self.service_id
                <= u32_limit(),
            r is Some ==> r == Some(
                ServiceHandle { kind: ServiceKind::Private, id: self.service_id as u32 },
            ),
    {
        if !self.has_checksum(expected_checksum) || self.service_id > 0xffff_ffffusize {
            return None;
        }
        Some(ServiceHandle { kind: ServiceKind::Private, id: self.service_id as u32 })
    }
}

/// Why a response did not give a result.
#[derive(Debug, Clone, Copy, PartialEq, Eq)]
pub enum ResponseError<E> {
    /// The response frame is not a response of the expected kind.
    ResponseDecode,
    /// The server answered with this error.
    Remote(E),
    /// The returned parts add up past a `usize`.
    ReturnsTooLarge,
}

/// The service id that a service id response frame gives.
pub fn service_id_from_response(frame: &[u8]) -> (r: Result<u32, ResponseError<RemoteServiceIdRequestError>>)
    ensures
        match decode_service_id_result_spec(frame@) {
            None => r == Err::<u32, _>(ResponseError::<RemoteServiceIdRequestError>::ResponseDecode),
            Some(Ok(found)) => r == Ok::<_, ResponseError<RemoteServiceIdRequestError>>(found.0),
            Some(Err(e)) => r == Err::<u32, _>(ResponseError::Remote(e)),
        },
{
    match decode_service_id_result(frame) {
        Ok(Ok(found)) => Ok(found.0),
        Ok(Err(e)) => Err(ResponseError::Remote(e)),
        Err(_) => Err(ResponseError::ResponseDecode),
    }
}

/// What a deallocation response frame says.
pub fn deallocation_from_response(frame: &[u8]) -> (r: Result<(), ResponseError<InvalidPrivateServiceIdError>>)
    ensures
        match decode_deallocate_result_spec(frame@) {
            None => r == Err::<(), _>(ResponseError::<InvalidPrivateServiceIdError>::ResponseDecode),
            Some(Ok(())) => r is Ok,
            Some(Err(e)) => r == Err::<(), _>(ResponseError::Remote(e)),
        },
{
    match decode_deallocate_result(frame) {
        Ok(Ok(())) => Ok(()),
        Ok(Err(e)) => Err(ResponseError::Remote(e)),
        Err(_) => Err(ResponseError::ResponseDecode),
    }
}

/// The layout of the parts that a service call response frame announces:
/// their sizes, and how many raw bytes follow the frame.
pub fn call_response_layout(frame: &[u8]) -> (r: Result<(Vec<u32>, usize), ResponseError<ServiceCallRequestError>>)
    ensures
        match decode_call_result_spec(frame@) {
            None => r == Err::<(Vec<u32>, usize), _>(
                ResponseError::<ServiceCallRequestError>::ResponseDecode,
            ),
            Some(Err(e)) => r == Err::<(Vec<u32>, usize), _>(ResponseError::Remote(e)),
            Some(Ok(sizes)) => if sum_sizes(sizes) <= usize::MAX {
                r is Ok && r.unwrap().0@ == sizes && r.unwrap().1 == sum_sizes(sizes)
            } else {
                r == Err::<(Vec<u32>, usize), _>(
                    ResponseError::<ServiceCallRequestError>::ReturnsTooLarge,
                )
            },
        },
{
    match decode_call_result(frame) {
        Ok(Ok(sizes)) => match MultipartReceived::total_size(sizes.as_slice()) {
            Some(total) => Ok((sizes, total)),
            None => Err(ResponseError::ReturnsTooLarge),
        },
        Ok(Err(e)) => Err(ResponseError::Remote(e)),
        Err(_) => Err(ResponseError::ResponseDecode),
    }
}

} // verus!
