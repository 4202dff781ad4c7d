//! The encoding format boundary and this crate's own binary format for the
//! protocol's envelopes.
//!
//! Layout (all integers big-endian):
//! - `RequestKind`: tag byte `0` then name (string field) and checksum (byte
//!   field); tag `1` then kind byte, id, function id and the part sizes (a
//!   list of `u32`); tag `2` then id.
//! - each response: tag byte `0` for success with its payload, `1` for
//!   failure followed, where the error has variants, by an error code byte.
//!
//! A decoder accepts a buffer only when it holds exactly one value.
use vstd::prelude::*;
use crate::protocol::{
    call_result_view, InvalidPrivateServiceIdError, PrivateServiceDeallocateRequestResult,
    RemoteServiceIdRequestError, RequestKind, RequestSpec, ServiceCallRequestError,
    ServiceCallRequestResult, ServiceFound, ServiceIdRequestResult, ServiceKind,
};
use crate::wire::{
    be32, bytes_field, lemma_occurs_split, lemma_read_bytes, lemma_read_str, lemma_read_u32,
    lemma_read_u32_list, occurs_at, push_bytes, push_str, push_u32, push_u32_list, read_bytes,
    read_bytes_spec, read_str, read_str_spec, read_u32, read_u32_list, read_u32_list_spec,
    read_u32_spec, str_field, u32_limit, u32_list, be32_value, push_all, string_from_utf8,
};
use crate::allocator::ServiceRef;
use vstd::utf8::{decode_utf8, encode_utf8, valid_utf8};

verus! {

/// Encoding format like this crate's `WireFormat`, bincode, capnproto and others.
pub trait EncodingFormat {

}

/// Encoding format that supports zero-copy decoding.
pub trait ZeroCopyEncodingFormat: EncodingFormat {

}

/// A data structure that can be encoded into a specified format.
pub trait Encode<Format: EncodingFormat> {
    /// Encoding error
    type Error;

    /// Encodes data structure into specified format.
    fn encode(&self) -> Result<Vec<u8>, Self::Error>;
}

/// A data structure that can be decoded from specified format.
pub trait Decode<Format: EncodingFormat> where Self: Sized {
    /// Decoding error
    type Error;

    /// Decodes data structure from specified format.
    fn decode(buffer: &[u8]) -> Result<Self, Self::Error>;
}

/// A data structure that can fail while zero-copy decoding.
pub trait DecodeZeroCopyFallible<Format: ZeroCopyEncodingFormat> {
    /// An error that can occur while zero-copy decoding from specified format
    type Error;
}

/// A data structure that can be decoded from specified format, borrowing from
/// the buffer instead of copying it.
pub trait DecodeZeroCopy<'a, Format: ZeroCopyEncodingFormat, Error>: DecodeZeroCopyFallible<
    Format,
> where Self: Sized {
    /// Decodes data structure from specified format without copying it.
    fn decode_zero_copy(buffer: &'a [u8]) -> Result<Self, Error>;
}

/// This crate's binary format; see the module documentation for its layout.
pub struct WireFormat;

impl EncodingFormat for WireFormat {

}

impl ZeroCopyEncodingFormat for WireFormat {

}

/// A value too large for the format: a field longer than a `u32` can count.
#[derive(Debug, Clone, Copy, PartialEq, Eq)]
pub struct WireEncodeError;

/// Bytes that do not hold exactly one value of the expected type.
#[derive(Debug, Clone, Copy, PartialEq, Eq)]
pub struct WireDecodeError;

// ---------------------------------------------------------------- codes

/// Wire code of a service kind.
pub open spec fn kind_code(k: ServiceKind) -> u8 {
    match k {
        ServiceKind::Public => 0,
        ServiceKind::Private => 1,
    }
}

/// Service kind of a wire code.
pub open spec fn kind_of_code(c: u8) -> Option<ServiceKind> {
    if c == 0 {
        Some(ServiceKind::Public)
    } else if c == 1 {
        Some(ServiceKind::Private)
    } else {
        None
    }
}

/// Wire code of a service id request error.
pub open spec fn id_error_code(e: RemoteServiceIdRequestError) -> u8 {
    match e {
        RemoteServiceIdRequestError::ServiceNotFound => 0,
        RemoteServiceIdRequestError::InvalidChecksum => 1,
    }
}

/// Service id request error of a wire code.
pub open spec fn id_error_of_code(c: u8) -> Option<RemoteServiceIdRequestError> {
    if c == 0 {
        Some(RemoteServiceIdRequestError::ServiceNotFound)
    } else if c == 1 {
        Some(RemoteServiceIdRequestError::InvalidChecksum)
    } else {
        None
    }
}

/// Wire code of a service call error.
pub open spec fn call_error_code(e: ServiceCallRequestError) -> u8 {
    match e {
        ServiceCallRequestError::InvalidServiceId => 0,
        ServiceCallRequestError::InvalidFunctionId => 1,
        ServiceCallRequestError::ArgsDecode => 2,
        ServiceCallRequestError::ServerInternal => 3,
    }
}

/// Service call error of a wire code.
pub open spec fn call_error_of_code(c: u8) -> Option<ServiceCallRequestError> {
    if c == 0 {
        Some(ServiceCallRequestError::InvalidServiceId)
    } else if c == 1 {
        Some(ServiceCallRequestError::InvalidFunctionId)
    } else if c == 2 {
        Some(ServiceCallRequestError::ArgsDecode)
    } else if c == 3 {
        Some(ServiceCallRequestError::ServerInternal)
    } else {
        None
    }
}

fn kind_to_code(k: ServiceKind) -> (c: u8)
    ensures
        c == kind_code(k),
{
    match k {
        ServiceKind::Public => 0,
        ServiceKind::Private => 1,
    }
}

fn kind_from_code(c: u8) -> (k: Option<ServiceKind>)
    ensures
        k == kind_of_code(c),
{
    if c == 0 {
        Some(ServiceKind::Public)
    } else if c == 1 {
        Some(ServiceKind::Private)
    } else {
        None
    }
}

fn id_error_to_code(e: RemoteServiceIdRequestError) -> (c: u8)
    ensures
        c == id_error_code(e),
{
    match e {
        RemoteServiceIdRequestError::ServiceNotFound => 0,
        RemoteServiceIdRequestError::InvalidChecksum => 1,
    }
}

fn id_error_from_code(c: u8) -> (e: Option<RemoteServiceIdRequestError>)
    ensures
        e == id_error_of_code(c),
{
    if c == 0 {
        Some(RemoteServiceIdRequestError::ServiceNotFound)
    } else if c == 1 {
        Some(RemoteServiceIdRequestError::InvalidChecksum)
    } else {
        None
    }
}

fn call_error_to_code(e: ServiceCallRequestError) -> (c: u8)
    ensures
        c == call_error_code(e),
{
    match e {
        ServiceCallRequestError::InvalidServiceId => 0,
        ServiceCallRequestError::InvalidFunctionId => 1,
        ServiceCallRequestError::ArgsDecode => 2,
        ServiceCallRequestError::ServerInternal => 3,
    }
}

fn call_error_from_code(c: u8) -> (e: Option<ServiceCallRequestError>)
    ensures
        e == call_error_of_code(c),
{
    if c == 0 {
        Some(ServiceCallRequestError::InvalidServiceId)
    } else if c == 1 {
        Some(ServiceCallRequestError::InvalidFunctionId)
    } else if c == 2 {
        Some(ServiceCallRequestError::ArgsDecode)
    } else if c == 3 {
        Some(ServiceCallRequestError::ServerInternal)
    } else {
        None
    }
}

/// A whole buffer read as one value: the read must end at the buffer's end.
pub open spec fn whole<T>(r: Option<(T, int)>, len: int) -> Option<T> {
    match r {
        Some((v, end)) => if end == len {
            Some(v)
        } else {
            None
        },
        None => None,
    }
}

proof fn lemma_occurs_whole(s: Seq<u8>)
    ensures
        occurs_at(s, 0, s),
{
    assert(s.subrange(0, s.len() as int) =~= s);
}

// ---------------------------------------------------------------- requests

/// Encoded form of a request.
pub open spec fn request_bytes(r: RequestSpec) -> Seq<u8> {
    match r {
        RequestSpec::ServiceId { name, checksum } => seq![0u8] + str_field(name) + bytes_field(
            checksum,
        ),
        RequestSpec::ServiceCall { kind, id, function_id, part_sizes } => seq![1u8, kind_code(kind)]
            + be32(id) + be32(function_id) + u32_list(part_sizes),
        RequestSpec::DeallocatePrivateService { id } => seq![2u8] + be32(id),
    }
}

/// The request's fields fit the format.
pub open spec fn request_encodable(r: RequestSpec) -> bool {
    match r {
        RequestSpec::ServiceId { name, checksum } => encode_utf8(name).len() <= u32_limit()
            && checksum.len() <= u32_limit(),
        RequestSpec::ServiceCall { part_sizes, .. } => part_sizes.len() <= u32_limit(),
        RequestSpec::DeallocatePrivateService { .. } => true,
    }
}

/// Reads a request from the start of `s`; gives it and where it ends.
#[verifier::opaque]
pub open spec fn read_request_spec(s: Seq<u8>) -> Option<(RequestSpec, int)> {
    if s.len() == 0 {
        None
    } else if s[0] == 0 {
        match read_str_spec(s, 1) {
            Some((name, p)) => match read_bytes_spec(s, p) {
                Some((checksum, q)) => Some((RequestSpec::ServiceId { name, checksum }, q)),
                None => None,
            },
            None => None,
        }
    } else if s[0] == 1 {
        if s.len() < 2 {
            None
        } else {
            match kind_of_code(s[1]) {
                Some(kind) => match read_u32_spec(s, 2) {
                    Some((id, p)) => match read_u32_spec(s, p) {
                        Some((function_id, q)) => match read_u32_list_spec(s, q) {
                            Some((part_sizes, e)) => Some(
                                (RequestSpec::ServiceCall { kind, id, function_id, part_sizes }, e),
                            ),
                            None => None,
                        },
                        None => None,
                    },
                    None => None,
                },
                None => None,
            }
        }
    } else if s[0] == 2 {
        match read_u32_spec(s, 1) {
            Some((id, p)) => Some((RequestSpec::DeallocatePrivateService { id }, p)),
            None => None,
        }
    } else {
        None
    }
}

/// The request that `s` holds, if it holds exactly one.
pub open spec fn decode_request_spec(s: Seq<u8>) -> Option<RequestSpec> {
    whole(read_request_spec(s), s.len() as int)
}

proof fn lemma_service_id_round_trip(name: Seq<char>, checksum: Seq<u8>)
    requires
        encode_utf8(name).len() <= u32_limit(),
        checksum.len() <= u32_limit(),
    ensures
        decode_request_spec(request_bytes(RequestSpec::ServiceId { name, checksum })) == Some(
            RequestSpec::ServiceId { name, checksum },
        ),
{
    let s = request_bytes(RequestSpec::ServiceId { name, checksum });
    let p = 1 + str_field(name).len() as int;
    lemma_occurs_whole(s);
    lemma_occurs_split(s, 0, seq![0u8] + str_field(name), bytes_field(checksum));
    lemma_occurs_split(s, 0, seq![0u8], str_field(name));
    lemma_read_str(s, 1, name);
    lemma_read_bytes(s, p, checksum);
    assert(s[0] == s.subrange(0, 1)[0]);
    assert(read_str_spec(s, 1) == Some((name, p)));
    assert(read_bytes_spec(s, p) == Some((checksum, s.len() as int)));
    reveal(read_request_spec);
}

proof fn lemma_service_call_round_trip(
    kind: ServiceKind,
    id: u32,
    function_id: u32,
    part_sizes: Seq<u32>,
)
    requires
        part_sizes.len() <= u32_limit(),
    ensures
        decode_request_spec(
            request_bytes(RequestSpec::ServiceCall { kind, id, function_id, part_sizes }),
        ) == Some(RequestSpec::ServiceCall { kind, id, function_id, part_sizes }),
{
    let s = request_bytes(RequestSpec::ServiceCall { kind, id, function_id, part_sizes });
    let a = seq![1u8, kind_code(kind)];
    lemma_occurs_whole(s);
    lemma_occurs_split(s, 0, a + be32(id) + be32(function_id), u32_list(part_sizes));
    lemma_occurs_split(s, 0, a + be32(id), be32(function_id));
    lemma_occurs_split(s, 0, a, be32(id));
    lemma_read_u32(s, 2, id);
    lemma_read_u32(s, 6, function_id);
    lemma_read_u32_list(s, 10, part_sizes);
    assert(s[0] == s.subrange(0, 2)[0]);
    assert(s[1] == s.subrange(0, 2)[1]);
    assert(kind_of_code(s[1]) == Some(kind));
    assert(s.len() == 10 + 4 + 4 * part_sizes.len()) by {
        crate::wire::lemma_u32_run_len(part_sizes);
    }
    reveal(read_request_spec);
}

proof fn lemma_deallocate_round_trip(id: u32)
    ensures
        decode_request_spec(request_bytes(RequestSpec::DeallocatePrivateService { id })) == Some(
            RequestSpec::DeallocatePrivateService { id },
        ),
{
    let s = request_bytes(RequestSpec::DeallocatePrivateService { id });
    lemma_occurs_whole(s);
    lemma_occurs_split(s, 0, seq![2u8], be32(id));
    lemma_read_u32(s, 1, id);
    assert(s[0] == s.subrange(0, 1)[0]);
    reveal(read_request_spec);
}

/// Decoding an encoded request gives the request back.
pub proof fn lemma_request_round_trip(r: RequestSpec)
    requires
        request_encodable(r),
    ensures
        decode_request_spec(request_bytes(r)) == Some(r),
{
    match r {
        RequestSpec::ServiceId { name, checksum } => lemma_service_id_round_trip(name, checksum),
        RequestSpec::ServiceCall { kind, id, function_id, part_sizes } =>
            lemma_service_call_round_trip(kind, id, function_id, part_sizes),
        RequestSpec::DeallocatePrivateService { id } => lemma_deallocate_round_trip(id),
    }
}

/// Encodes a request; fails only when a field is too long for the format.
pub fn encode_request(r: &RequestKind) -> (res: Result<Vec<u8>, WireEncodeError>)
    ensures
        res is Ok <==> request_encodable(r@),
        res is Ok ==> res.unwrap()@ == request_bytes(r@),
{
    let mut out: Vec<u8> = Vec::new();
    match r {
        RequestKind::ServiceId { name, checksum } => {
            out.push(0u8);
            if !push_str(&mut out, *name) {
                return Err(WireEncodeError);
            }
            if !push_bytes(&mut out, *checksum) {
                return Err(WireEncodeError);
            }
        },
        RequestKind::ServiceCall { kind, id, function_id, part_sizes } => {
            out.push(1u8);
            out.push(kind_to_code(*kind));
            push_u32(&mut out, *id);
            push_u32(&mut out, *function_id);
            if !push_u32_list(&mut out, part_sizes.as_slice()) {
                return Err(WireEncodeError);
            }
        },
        RequestKind::DeallocatePrivateService { id } => {
            out.push(2u8);
            push_u32(&mut out, *id);
        },
    }
    assert(out@ =~= request_bytes(r@));
    Ok(out)
}

/// Decodes a request, borrowing its name and checksum from `b`.
pub fn decode_request<'a>(b: &'a [u8]) -> (res: Result<RequestKind<'a>, WireDecodeError>)
    ensures
        res is Ok <==> decode_request_spec(b@) is Some,
        res is Ok ==> decode_request_spec(b@) == Some(res.unwrap()@),
{
    reveal(read_request_spec);
    if b.len() == 0 {
        return Err(WireDecodeError);
    }
    let (r, end): (RequestKind<'a>, usize) = if b[0] == 0 {
        match read_str(b, 1) {
            Some((name, p)) => match read_bytes(b, p) {
                Some((checksum, q)) => (RequestKind::ServiceId { name, checksum }, q),
                None => return Err(WireDecodeError),
            },
            None => return Err(WireDecodeError),
        }
    } else if b[0] == 1 {
        if b.len() < 2 {
            return Err(WireDecodeError);
        }
        match kind_from_code(b[1]) {
            Some(kind) => match read_u32(b, 2) {
                Some((id, p)) => match read_u32(b, p) {
                    Some((function_id, q)) => match read_u32_list(b, q) {
                        Some((part_sizes, e)) => (
                            RequestKind::ServiceCall { kind, id, function_id, part_sizes },
                            e,
                        ),
                        None => return Err(WireDecodeError),
                    },
                    None => return Err(WireDecodeError),
                },
                None => return Err(WireDecodeError),
            },
            None => return Err(WireDecodeError),
        }
    } else if b[0] == 2 {
        match read_u32(b, 1) {
            Some((id, p)) => (RequestKind::DeallocatePrivateService { id }, p),
            None => return Err(WireDecodeError),
        }
    } else {
        return Err(WireDecodeError);
    };
    if end == b.len() {
        Ok(r)
    } else {
        Err(WireDecodeError)
    }
}

impl<'a> Encode<WireFormat> for RequestKind<'a> {
    type Error = WireEncodeError;

    fn encode(&self) -> Result<Vec<u8>, WireEncodeError> {
        encode_request(self)
    }
}

impl<'a> DecodeZeroCopyFallible<WireFormat> for RequestKind<'a> {
    type Error = WireDecodeError;
}

impl<'a> DecodeZeroCopy<'a, WireFormat, WireDecodeError> for RequestKind<'a> {
    fn decode_zero_copy(buffer: &'a [u8]) -> Result<RequestKind<'a>, WireDecodeError> {
        decode_request(buffer)
    }
}

// ---------------------------------------------------------------- responses

/// Encoded form of a service id response.
pub open spec fn service_id_result_bytes(r: ServiceIdRequestResult) -> Seq<u8> {
    match r {
        Ok(found) => seq![0u8] + be32(found.0),
        Err(e) => seq![1u8, id_error_code(e)],
    }
}

/// The service id response that `s` holds, if it holds exactly one.
#[verifier::opaque]
pub open spec fn decode_service_id_result_spec(s: Seq<u8>) -> Option<ServiceIdRequestResult> {
    if s.len() == 5 && s[0] == 0 {
        Some(Ok(ServiceFound(be32_value(s[1], s[2], s[3], s[4]))))
    } else if s.len() == 2 && s[0] == 1 {
        match id_error_of_code(s[1]) {
            Some(e) => Some(Err(e)),
            None => None,
        }
    } else {
        None
    }
}

/// Decoding an encoded service id response gives it back.
pub proof fn lemma_service_id_result_round_trip(r: ServiceIdRequestResult)
    ensures
        decode_service_id_result_spec(service_id_result_bytes(r)) == Some(r),
{
    reveal(decode_service_id_result_spec);
    let s = service_id_result_bytes(r);
    match r {
        Ok(found) => {
            crate::wire::lemma_be32_value(found.0);
            assert(s[1] == be32(found.0)[0] && s[2] == be32(found.0)[1] && s[3] == be32(found.0)[2]
                && s[4] == be32(found.0)[3]);
        },
        Err(e) => {},
    }
}

/// Encodes a service id response.
pub fn encode_service_id_result(r: &ServiceIdRequestResult) -> (out: Vec<u8>)
    ensures
        out@ == service_id_result_bytes(*r),
{
    let mut out: Vec<u8> = Vec::new();
    match r {
        Ok(found) => {
            out.push(0u8);
            push_u32(&mut out, found.0);
        },
        Err(e) => {
            out.push(1u8);
            out.push(id_error_to_code(*e));
        },
    }
    assert(out@ =~= service_id_result_bytes(*r));
    out
}

/// Decodes a service id response.
pub fn decode_service_id_result(b: &[u8]) -> (res: Result<ServiceIdRequestResult, WireDecodeError>)
    ensures
        res is Ok <==> decode_service_id_result_spec(b@) is Some,
        res is Ok ==> decode_service_id_result_spec(b@) == Some(res.unwrap()),
{
    reveal(decode_service_id_result_spec);
    if b.len() == 5 && b[0] == 0 {
        let (v, _) = read_u32(b, 1).unwrap();
        Ok(Ok(ServiceFound(v)))
    } else if b.len() == 2 && b[0] == 1 {
        match id_error_from_code(b[1]) {
            Some(e) => Ok(Err(e)),
            None => Err(WireDecodeError),
        }
    } else {
        Err(WireDecodeError)
    }
}

/// Encoded form of a service call response.
pub open spec fn call_result_bytes(r: Result<Seq<u32>, ServiceCallRequestError>) -> Seq<u8> {
    match r {
        Ok(sizes) => seq![0u8] + u32_list(sizes),
        Err(e) => seq![1u8, call_error_code(e)],
    }
}

/// The service call response's fields fit the format.
pub open spec fn call_result_encodable(r: Result<Seq<u32>, ServiceCallRequestError>) -> bool {
    match r {
        Ok(sizes) => sizes.len() <= u32_limit(),
        Err(_) => true,
    }
}

/// The service call response that `s` holds, if it holds exactly one.
#[verifier::opaque]
pub open spec fn decode_call_result_spec(s: Seq<u8>) -> Option<
    Result<Seq<u32>, ServiceCallRequestError>,
> {
    if s.len() >= 1 && s[0] == 0 {
        match whole(read_u32_list_spec(s, 1), s.len() as int) {
            Some(sizes) => Some(Ok(sizes)),
            None => None,
        }
    } else if s.len() == 2 && s[0] == 1 {
        match call_error_of_code(s[1]) {
            Some(e) => Some(Err(e)),
            None => None,
        }
    } else {
        None
    }
}

/// Decoding an encoded service call response gives it back.
pub proof fn lemma_call_result_round_trip(r: Result<Seq<u32>, ServiceCallRequestError>)
    requires
        call_result_encodable(r),
    ensures
        decode_call_result_spec(call_result_bytes(r)) == Some(r),
{
    reveal(decode_call_result_spec);
    let s = call_result_bytes(r);
    match r {
        Ok(sizes) => {
            lemma_occurs_whole(s);
            lemma_occurs_split(s, 0, seq![0u8], u32_list(sizes));
            lemma_read_u32_list(s, 1, sizes);
            crate::wire::lemma_u32_run_len(sizes);
            assert(s[0] == s.subrange(0, 1)[0]);
        },
        Err(e) => {},
    }
}

/// Encodes a service call response; fails only when it announces more parts
/// than a `u32` can count.
pub fn encode_call_result(r: &ServiceCallRequestResult) -> (res: Result<Vec<u8>, WireEncodeError>)
    ensures
        res is Ok <==> call_result_encodable(call_result_view(*r)),
        res is Ok ==> res.unwrap()@ == call_result_bytes(call_result_view(*r)),
{
    let mut out: Vec<u8> = Vec::new();
    match r {
        Ok(sizes) => {
            out.push(0u8);
            if !push_u32_list(&mut out, sizes.as_slice()) {
                return Err(WireEncodeError);
            }
        },
        Err(e) => {
            out.push(1u8);
            out.push(call_error_to_code(*e));
        },
    }
    assert(out@ =~= call_result_bytes(call_result_view(*r)));
    Ok(out)
}

/// Decodes a service call response.
pub fn decode_call_result(b: &[u8]) -> (res: Result<ServiceCallRequestResult, WireDecodeError>)
    ensures
        res is Ok <==> decode_call_result_spec(b@) is Some,
        res is Ok ==> decode_call_result_spec(b@) == Some(call_result_view(res.unwrap())),
{
    reveal(decode_call_result_spec);
    if b.len() >= 1 && b[0] == 0 {
        match read_u32_list(b, 1) {
            Some((sizes, end)) => if end == b.len() {
                Ok(Ok(sizes))
            } else {
                Err(WireDecodeError)
            },
            None => Err(WireDecodeError),
        }
    } else if b.len() == 2 && b[0] == 1 {
        match call_error_from_code(b[1]) {
            Some(e) => Ok(Err(e)),
            None => Err(WireDecodeError),
        }
    } else {
        Err(WireDecodeError)
    }
}

/// Encoded form of a deallocation response.
pub open spec fn deallocate_result_bytes(r: PrivateServiceDeallocateRequestResult) -> Seq<u8> {
    match r {
        Ok(()) => seq![0u8],
        Err(_) => seq![1u8],
    }
}

/// The deallocation response that `s` holds, if it holds exactly one.
pub open spec fn decode_deallocate_result_spec(s: Seq<u8>) -> Option<
    PrivateServiceDeallocateRequestResult,
> {
    if s.len() == 1 && s[0] == 0 {
        Some(Ok(()))
    } else if s.len() == 1 && s[0] == 1 {
        Some(Err(InvalidPrivateServiceIdError))
    } else {
        None
    }
}

/// Decoding an encoded deallocation response gives it back.
pub proof fn lemma_deallocate_result_round_trip(r: PrivateServiceDeallocateRequestResult)
    ensures
        decode_deallocate_result_spec(deallocate_result_bytes(r)) == Some(r),
{
    let s = deallocate_result_bytes(r);
    match r {
        Ok(u) => {
            assert(s[0] == 0u8);
            assert(u == ());
        },
        Err(e) => {
            let InvalidPrivateServiceIdError = e;
        },
    }
}

/// Encodes a deallocation response.
pub fn encode_deallocate_result(r: &PrivateServiceDeallocateRequestResult) -> (out: Vec<u8>)
    ensures
        out@ == deallocate_result_bytes(*r),
{
    let mut out: Vec<u8> = Vec::new();
    match r {
        Ok(()) => out.push(0u8),
        Err(_) => out.push(1u8),
    }
    assert(out@ =~= deallocate_result_bytes(*r));
    out
}

/// Decodes a deallocation response.
pub fn decode_deallocate_result(b: &[u8]) -> (res: Result<
    PrivateServiceDeallocateRequestResult,
    WireDecodeError,
>)
    ensures
        res is Ok <==> decode_deallocate_result_spec(b@) is Some,
        res is Ok ==> decode_deallocate_result_spec(b@) == Some(res.unwrap()),
{
    if b.len() == 1 && b[0] == 0 {
        Ok(Ok(()))
    } else if b.len() == 1 && b[0] == 1 {
        Ok(Err(InvalidPrivateServiceIdError))
    } else {
        Err(WireDecodeError)
    }
}

impl Encode<WireFormat> for ServiceIdRequestResult {
    type Error = WireEncodeError;

    fn encode(&self) -> Result<Vec<u8>, WireEncodeError> {
        Ok(encode_service_id_result(self))
    }
}

impl Decode<WireFormat> for ServiceIdRequestResult {
    type Error = WireDecodeError;

    fn decode(buffer: &[u8]) -> Result<ServiceIdRequestResult, WireDecodeError> {
        decode_service_id_result(buffer)
    }
}

impl Encode<WireFormat> for ServiceCallRequestResult {
    type Error = WireEncodeError;

    fn encode(&self) -> Result<Vec<u8>, WireEncodeError> {
        encode_call_result(self)
    }
}

impl Decode<WireFormat> for ServiceCallRequestResult {
    type Error = WireDecodeError;

    fn decode(buffer: &[u8]) -> Result<ServiceCallRequestResult, WireDecodeError> {
        decode_call_result(buffer)
    }
}

impl Encode<WireFormat> for PrivateServiceDeallocateRequestResult {
    type Error = WireEncodeError;

    fn encode(&self) -> Result<Vec<u8>, WireEncodeError> {
        Ok(encode_deallocate_result(self))
    }
}

impl Decode<WireFormat> for PrivateServiceDeallocateRequestResult {
    type Error = WireDecodeError;

    fn decode(buffer: &[u8]) -> Result<PrivateServiceDeallocateRequestResult, WireDecodeError> {
        decode_deallocate_result(buffer)
    }
}

// ---------------------------------------------------------------- service references

/// Error while encoding a `ServiceRef`.
#[derive(Debug, Clone, Copy, PartialEq, Eq)]
pub enum ServiceRefEncodeError {
    /// The service id does not fit a `u32`.
    InvalidServiceId,
    /// The checksum is too long for the format.
    Encode(WireEncodeError),
}

/// Error while decoding a `ServiceRef`.
#[derive(Debug, Clone, Copy, PartialEq, Eq)]
pub enum ServiceRefDecodeError {
    /// The service id does not fit a `usize`; a `u32` always fits one on
    /// the targets this crate verifies for, so the decoders here never give it.
    InvalidServiceId,
    /// The bytes do not hold a service reference.
    Decode(WireDecodeError),
}

/// Encoded form of a service reference: its id, then its checksum.
pub open spec fn service_ref_bytes(id: u32, checksum: Seq<u8>) -> Seq<u8> {
    be32(id) + bytes_field(checksum)
}

/// The id and checksum that `s` holds, if it holds exactly one reference.
pub open spec fn decode_service_ref_spec(s: Seq<u8>) -> Option<(u32, Seq<u8>)> {
    match read_u32_spec(s, 0) {
        Some((id, p)) => match whole(read_bytes_spec(s, p), s.len() as int) {
            Some(checksum) => Some((id, checksum)),
            None => None,
        },
        None => None,
    }
}

/// Encoded form of an optional service reference.
pub open spec fn option_service_ref_bytes(r: Option<(u32, Seq<u8>)>) -> Seq<u8> {
    match r {
        None => seq![0u8],
        Some((id, checksum)) => seq![1u8] + service_ref_bytes(id, checksum),
    }
}

/// The optional reference that `s` holds, if it holds exactly one.
pub open spec fn decode_option_service_ref_spec(s: Seq<u8>) -> Option<Option<(u32, Seq<u8>)>> {
    if s.len() == 1 && s[0] == 0 {
        Some(None)
    } else if s.len() >= 1 && s[0] == 1 {
        match decode_service_ref_spec(s.drop_first()) {
            Some(r) => Some(Some(r)),
            None => None,
        }
    } else {
        None
    }
}

/// Decoding an encoded service reference gives it back.
pub proof fn lemma_service_ref_round_trip(id: u32, checksum: Seq<u8>)
    requires
        checksum.len() <= u32_limit(),
    ensures
        decode_service_ref_spec(service_ref_bytes(id, checksum)) == Some((id, checksum)),
{
    let s = service_ref_bytes(id, checksum);
    lemma_occurs_whole(s);
    lemma_occurs_split(s, 0, be32(id), bytes_field(checksum));
    lemma_read_u32(s, 0, id);
    lemma_read_bytes(s, 4, checksum);
}

/// Decoding an encoded optional service reference gives it back.
pub proof fn lemma_option_service_ref_round_trip(r: Option<(u32, Seq<u8>)>)
    requires
        r matches Some((_, checksum)) ==> checksum.len() <= u32_limit(),
    ensures
        decode_option_service_ref_spec(option_service_ref_bytes(r)) == Some(r),
{
    if let Some((id, checksum)) = r {
        let s = option_service_ref_bytes(r);
        assert(s.drop_first() =~= service_ref_bytes(id, checksum));
        lemma_service_ref_round_trip(id, checksum);
    }
}

/// Writes the id and checksum of `r` after what `out` holds.
fn push_service_ref(out: &mut Vec<u8>, r: &ServiceRef) -> (res: Result<(), ServiceRefEncodeError>)
    ensures
        res is Ok <==> r.service_id <= u32_limit() && r.service_checksum@.len() <= u32_limit(),
        res == Err::<(), _>(ServiceRefEncodeError::InvalidServiceId) <==> r.service_id
            > u32_limit(),
        res is Ok ==> final(out)@ == old(out)@ + service_ref_bytes(
            r.service_id as u32,
            r.service_checksum@,
        ),
{
    if r.service_id > 0xffff_ffffusize {
        return Err(ServiceRefEncodeError::InvalidServiceId);
    }
    if r.service_checksum.len() > 0xffff_ffffusize {
        return Err(ServiceRefEncodeError::Encode(WireEncodeError));
    }
    push_u32(out, r.service_id as u32);
    push_bytes(out, r.service_checksum.as_slice());
    assert(final(out)@ =~= old(out)@ + service_ref_bytes(
        r.service_id as u32,
        r.service_checksum@,
    ));
    Ok(())
}

/// Encodes a service reference; fails when its id does not fit a `u32` or
/// its checksum is too long.
pub fn encode_service_ref(r: &ServiceRef) -> (res: Result<Vec<u8>, ServiceRefEncodeError>)
    ensures
        res is Ok <==> r.service_id <= u32_limit() && r.service_checksum@.len() <= u32_limit(),
        res == Err::<Vec<u8>, _>(ServiceRefEncodeError::InvalidServiceId) <==> r.service_id
            > u32_limit(),
        res is Ok ==> res.unwrap()@ == service_ref_bytes(r.service_id as u32, r.service_checksum@),
{
    let mut out: Vec<u8> = Vec::new();
    match push_service_ref(&mut out, r) {
        Ok(()) => {
            assert(out@ =~= service_ref_bytes(r.service_id as u32, r.service_checksum@));
            Ok(out)
        },
        Err(e) => Err(e),
    }
}

/// Reads a whole buffer as a service reference.
fn read_service_ref(b: &[u8]) -> (res: Result<ServiceRef, ServiceRefDecodeError>)
    ensures
        res is Ok <==> decode_service_ref_spec(b@) is Some,
        res is Err ==> res == Err::<ServiceRef, _>(ServiceRefDecodeError::Decode(WireDecodeError)),
        res is Ok ==> decode_service_ref_spec(b@) == Some(
            (res.unwrap().service_id as u32, res.unwrap().service_checksum@),
        ) && res.unwrap().service_id <= u32_limit(),
{
    match read_u32(b, 0) {
        Some((id, p)) => match read_bytes(b, p) {
            Some((checksum, end)) => if end == b.len() {
                let mut owned: Vec<u8> = Vec::new();
                push_all(&mut owned, checksum);
                assert(owned@ =~= checksum@);
                Ok(ServiceRef { service_id: id as usize, service_checksum: owned })
            } else {
                Err(ServiceRefDecodeError::Decode(WireDecodeError))
            },
            None => Err(ServiceRefDecodeError::Decode(WireDecodeError)),
        },
        None => Err(ServiceRefDecodeError::Decode(WireDecodeError)),
    }
}

/// Decodes a service reference.
pub fn decode_service_ref(b: &[u8]) -> (res: Result<ServiceRef, ServiceRefDecodeError>)
    ensures
        res is Ok <==> decode_service_ref_spec(b@) is Some,
        res is Err ==> res == Err::<ServiceRef, _>(ServiceRefDecodeError::Decode(WireDecodeError)),
        res is Ok ==> decode_service_ref_spec(b@) == Some(
            (res.unwrap().service_id as u32, res.unwrap().service_checksum@),
        ) && res.unwrap().service_id <= u32_limit(),
{
    read_service_ref(b)
}

/// Encodes an optional service reference.
pub fn encode_option_service_ref(r: &Option<ServiceRef>) -> (res: Result<
    Vec<u8>,
    ServiceRefEncodeError,
>)
    ensures
        res is Ok <==> (r matches Some(s) ==> s.service_id <= u32_limit()
            && s.service_checksum@.len() <= u32_limit()),
        res is Ok ==> res.unwrap()@ == option_service_ref_bytes(
            match r {
                Some(s) => Some((s.service_id as u32, s.service_checksum@)),
                None => None,
            },
        ),
{
    let mut out: Vec<u8> = Vec::new();
    match r {
        None => {
            out.push(0u8);
            assert(out@ =~= seq![0u8]);
            Ok(out)
        },
        Some(s) => {
            out.push(1u8);
            push_service_ref(&mut out, s)?;
            Ok(out)
        },
    }
}

/// Decodes an optional service reference.
pub fn decode_option_service_ref(b: &[u8]) -> (res: Result<
    Option<ServiceRef>,
    ServiceRefDecodeError,
>)
    ensures
        res is Ok <==> decode_option_service_ref_spec(b@) is Some,
        res is Ok ==> decode_option_service_ref_spec(b@) == Some(
            match res.unwrap() {
                Some(s) => Some((s.service_id as u32, s.service_checksum@)),
                None => None,
            },
        ),
{
    if b.len() == 1 && b[0] == 0 {
        Ok(None)
    } else if b.len() >= 1 && b[0] == 1 {
        let rest = &b[1..b.len()];
        assert(rest@ =~= b@.drop_first());
        match read_service_ref(rest) {
            Ok(s) => Ok(Some(s)),
            Err(e) => Err(e),
        }
    } else {
        Err(ServiceRefDecodeError::Decode(WireDecodeError))
    }
}

impl Encode<WireFormat> for ServiceRef {
    type Error = ServiceRefEncodeError;

    fn encode(&self) -> Result<Vec<u8>, ServiceRefEncodeError> {
        encode_service_ref(self)
    }
}

impl Decode<WireFormat> for ServiceRef {
    type Error = ServiceRefDecodeError;

    fn decode(buffer: &[u8]) -> Result<ServiceRef, ServiceRefDecodeError> {
        decode_service_ref(buffer)
    }
}

impl Encode<WireFormat> for Option<ServiceRef> {
    type Error = ServiceRefEncodeError;

    fn encode(&self) -> Result<Vec<u8>, ServiceRefEncodeError> {
        encode_option_service_ref(self)
    }
}

impl Decode<WireFormat> for Option<ServiceRef> {
    type Error = ServiceRefDecodeError;

    fn decode(buffer: &[u8]) -> Result<Option<ServiceRef>, ServiceRefDecodeError> {
        decode_option_service_ref(buffer)
    }
}

// ---------------------------------------------------------------- plain values

/// Encodes a `u32`: its four big-endian bytes.
pub fn encode_u32(v: u32) -> (out: Vec<u8>)
    ensures
        out@ == be32(v),
{
    let mut out: Vec<u8> = Vec::new();
    push_u32(&mut out, v);
    assert(out@ =~= be32(v));
    out
}

/// Decodes a `u32` from exactly four bytes.
pub fn decode_u32(b: &[u8]) -> (res: Result<u32, WireDecodeError>)
    ensures
        res is Ok <==> b@.len() == 4,
        res is Ok ==> res.unwrap() == be32_value(b@[0], b@[1], b@[2], b@[3]),
{
    if b.len() != 4 {
        return Err(WireDecodeError);
    }
    let (v, _) = read_u32(b, 0).unwrap();
    Ok(v)
}

/// Encodes a string: its UTF-8 bytes.
pub fn encode_string(s: &str) -> (out: Vec<u8>)
    ensures
        out@ == encode_utf8(s@),
{
    let mut out: Vec<u8> = Vec::new();
    push_all(&mut out, s.as_bytes());
    assert(out@ =~= encode_utf8(s@));
    out
}

/// Decodes a string from its UTF-8 bytes.
pub fn decode_string(b: &[u8]) -> (res: Result<String, WireDecodeError>)
    ensures
        res is Ok <==> valid_utf8(b@),
        res is Ok ==> res.unwrap()@ == decode_utf8(b@),
{
    match string_from_utf8(b) {
        Some(s) => Ok(s),
        None => Err(WireDecodeError),
    }
}

impl Encode<WireFormat> for u32 {
    type Error = WireEncodeError;

    fn encode(&self) -> Result<Vec<u8>, WireEncodeError> {
        Ok(encode_u32(*self))
    }
}

impl Decode<WireFormat> for u32 {
    type Error = WireDecodeError;

    fn decode(buffer: &[u8]) -> Result<u32, WireDecodeError> {
        decode_u32(buffer)
    }
}

impl Encode<WireFormat> for String {
    type Error = WireEncodeError;

    fn encode(&self) -> Result<Vec<u8>, WireEncodeError> {
        Ok(encode_string(self.as_str()))
    }
}

impl Decode<WireFormat> for String {
    type Error = WireDecodeError;

    fn decode(buffer: &[u8]) -> Result<String, WireDecodeError> {
        decode_string(buffer)
    }
}

impl Encode<WireFormat> for () {
    type Error = WireEncodeError;

    fn encode(&self) -> Result<Vec<u8>, WireEncodeError> {
        Ok(Vec::new())
    }
}

impl Decode<WireFormat> for () {
    type Error = WireDecodeError;

    fn decode(buffer: &[u8]) -> Result<(), WireDecodeError> {
        if buffer.len() == 0 {
            Ok(())
        } else {
            Err(WireDecodeError)
        }
    }
}

} // verus!
