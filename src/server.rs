//! The server's public service table and the decisions it takes on each
//! request: service lookup, call target resolution, deallocation, and the
//! bytes of each response.
use vstd::prelude::*;
use crate::allocator::PrivateServiceAllocator;
use crate::codec::{
    call_result_bytes, deallocate_result_bytes, decode_request, decode_request_spec,
    encode_call_result, encode_deallocate_result, encode_service_id_result,
    service_id_result_bytes,
};
use crate::multipart::{sum_sizes, MultipartReceived, MultipartSendable};
use crate::protocol::{
    InvalidPrivateServiceIdError, PrivateServiceDeallocateRequestResult,
    RemoteServiceIdRequestError, RequestKind, RequestSpec, ServiceCallRequestError, ServiceFound,
    ServiceIdRequestResult, ServiceKind,
};
use crate::wire::{bytes_eq, bytes_field, frame, push_all, str_eq, u32_limit};

verus! {

/// Index of the last entry of `names` equal to `name`.
pub open spec fn last_index_of(names: Seq<Seq<char>>, name: Seq<char>) -> Option<int>
    decreases names.len(),
{
    if names.len() == 0 {
        None
    } else if names.last() == name {
        Some(names.len() - 1)
    } else {
        last_index_of(names.drop_last(), name)
    }
}

proof fn lemma_last_index_of(names: Seq<Seq<char>>, name: Seq<char>)
    ensures
        last_index_of(names, name) matches Some(i) ==> 0 <= i < names.len() && names[i] == name
            && forall|j: int| i < j < names.len() ==> names[j] != name,
        last_index_of(names, name) is None ==> forall|j: int|
            0 <= j < names.len() ==> names[j] != name,
    decreases names.len(),
{
    if names.len() > 0 {
        lemma_last_index_of(names.drop_last(), name);
        if names.last() != name {
            assert forall|j: int| 0 <= j < names.len() - 1 implies names[j]
                == names.drop_last()[j] by {}
        }
    }
}

/// Registers services and builds the `Server`.
pub struct ServerBuilder<S> {
    names: Vec<String>,
    checksums: Vec<Vec<u8>>,
    services: Vec<S>,
}

/// The table of public services: each one's name, checksum and
/// implementation, at the index that is its service id. It does not change
/// once built.
pub struct Server<S> {
    names: Vec<String>,
    checksums: Vec<Vec<u8>>,
    services: Vec<S>,
}

impl<S> ServerBuilder<S> {
    /// Registered names, in registration order.
    pub closed spec fn names(&self) -> Seq<Seq<char>> {
        self.names@.map_values(|n: String| n@)
    }

    /// Registered checksums, in registration order.
    pub closed spec fn checksums(&self) -> Seq<Seq<u8>> {
        self.checksums@.map_values(|c: Vec<u8>| c@)
    }

    /// Registered implementations, in registration order.
    pub closed spec fn services(&self) -> Seq<S> {
        self.services@
    }

    /// The three lists are of one length.
    pub closed spec fn wf(&self) -> bool {
        &&& self.names@.len() == self.services@.len()
        &&& self.checksums@.len() == self.services@.len()
        &&& self.services@.len() <= u32_limit() + 1
    }

    /// A builder with no service.
    pub fn new() -> (r: Self)
        ensures
            r.wf(),
            r.services().len() == 0,
    {
        ServerBuilder { names: Vec::new(), checksums: Vec::new(), services: Vec::new() }
    }

    /// Adds a service under `name` and `checksum`; its id is the number of
    /// services added before it. A later service of the same name shadows it
    /// for lookups.
    pub fn with_boxed_service(self, name: String, checksum: Vec<u8>, service: S) -> (r: Self)
        requires
            self.wf(),
            self.services().len() <= u32_limit(),
        ensures
            r.wf(),
            r.names() == self.names().push(name@),
            r.checksums() == self.checksums().push(checksum@),
            r.services() == self.services().push(service),
    {
        let mut r = self;
        let ghost name_view = name@;
        let ghost checksum_view = checksum@;
        r.names.push(name);
        r.checksums.push(checksum);
        r.services.push(service);
        assert(r.names() =~= self.names().push(name_view));
        assert(r.checksums() =~= self.checksums().push(checksum_view));
        r
    }

    /// Number of services registered so far.
    pub fn service_count(&self) -> (r: usize)
        ensures
            r == self.services().len(),
    {
        self.services.len()
    }

    /// The server with the services registered so far.
    pub fn build(self) -> (r: Server<S>)
        requires
            self.wf(),
        ensures
            r.wf(),
            r.names() == self.names(),
            r.checksums() == self.checksums(),
            r.services() == self.services(),
    {
        Server { names: self.names, checksums: self.checksums, services: self.services }
    }
}

/// What a service id request for `name` and `checksum` is answered on a table.
pub open spec fn lookup(
    names: Seq<Seq<char>>,
    checksums: Seq<Seq<u8>>,
    name: Seq<char>,
    checksum: Seq<u8>,
) -> Result<u32, RemoteServiceIdRequestError> {
    match last_index_of(names, name) {
        None => Err(RemoteServiceIdRequestError::ServiceNotFound),
        Some(i) => if checksums[i] == checksum {
            Ok(i as u32)
        } else {
            Err(RemoteServiceIdRequestError::InvalidChecksum)
        },
    }
}

/// The response envelope of a lookup result.
pub open spec fn as_service_id_result(r: Result<u32, RemoteServiceIdRequestError>) -> ServiceIdRequestResult {
    match r {
        Ok(id) => Ok(ServiceFound(id)),
        Err(e) => Err(e),
    }
}

/// Sizes of the parts of a multipart.
pub open spec fn sizes_of(parts: Seq<Seq<u8>>) -> Seq<u32> {
    parts.map_values(|p: Seq<u8>| p.len() as u32)
}

/// The parts and the envelope that announces them fit the format.
pub open spec fn returns_sendable(parts: Seq<Seq<u8>>) -> bool {
    &&& forall|i: int| 0 <= i < parts.len() ==> #[trigger] parts[i].len() <= u32_limit()
    &&& 5 + 4 * parts.len() <= u32_limit()
}

/// What goes on the wire for the result of a service call: the framed
/// envelope, then on success the parts one after another.
pub open spec fn call_response_bytes(r: Result<Seq<Seq<u8>>, ServiceCallRequestError>) -> Seq<u8> {
    match r {
        Ok(parts) => bytes_field(call_result_bytes(Ok(sizes_of(parts)))) + parts.flatten(),
        Err(e) => bytes_field(call_result_bytes(Err(e))),
    }
}

impl<S> Server<S> {
    /// Registered names, by service id.
    pub closed spec fn names(&self) -> Seq<Seq<char>> {
        self.names@.map_values(|n: String| n@)
    }

    /// Registered checksums, by service id.
    pub closed spec fn checksums(&self) -> Seq<Seq<u8>> {
        self.checksums@.map_values(|c: Vec<u8>| c@)
    }

    /// Registered implementations, by service id.
    pub closed spec fn services(&self) -> Seq<S> {
        self.services@
    }

    /// The three lists are of one length.
    pub closed spec fn wf(&self) -> bool {
        &&& self.names@.len() == self.services@.len()
        &&& self.checksums@.len() == self.services@.len()
        &&& self.services@.len() <= u32_limit() + 1
    }

    /// What a service id request is answered.
    pub open spec fn lookup_spec(&self, name: Seq<char>, checksum: Seq<u8>) -> Result<
        u32,
        RemoteServiceIdRequestError,
    > {
        lookup(self.names(), self.checksums(), name, checksum)
    }

    /// The service that a call of `kind` and `id` reaches, if any.
    pub open spec fn call_target(
        &self,
        allocator: &PrivateServiceAllocator<S>,
        kind: ServiceKind,
        id: u32,
    ) -> Option<S> {
        match kind {
            ServiceKind::Public => if id < self.services().len() {
                Some(self.services()[id as int])
            } else {
                None
            },
            ServiceKind::Private => allocator.live(id as int),
        }
    }

    /// Number of public services.
    pub fn service_count(&self) -> (r: usize)
        ensures
            r == self.services().len(),
    {
        self.services.len()
    }

    /// Answers a service id request: the id of the last service registered
    /// under `name` when its checksum is `checksum`.
    pub fn handle_service_request(&self, name: &str, checksum: &[u8]) -> (r: Result<
        u32,
        RemoteServiceIdRequestError,
    >)
        requires
            self.wf(),
        ensures
            r == self.lookup_spec(name@, checksum@),
    {
        let mut i: usize = self.names.len();
        assert(self.names().subrange(0, i as int) =~= self.names());
        while i > 0
            invariant
                0 <= i <= self.names@.len(),
                self.wf(),
                last_index_of(self.names(), name@) == last_index_of(
                    self.names().subrange(0, i as int),
                    name@,
                ),
            decreases i,
        {
            let ghost prefix = self.names().subrange(0, i as int);
            assert(prefix.last() == self.names@[i - 1]@);
            assert(prefix.drop_last() =~= self.names().subrange(0, i - 1));
            if str_eq(self.names[i - 1].as_str(), name) {
                let found = i - 1;
                assert(self.checksums()[found as int] == self.checksums@[found as int]@);
                if bytes_eq(self.checksums[found].as_slice(), checksum) {
                    return Ok(found as u32);
                } else {
                    return Err(RemoteServiceIdRequestError::InvalidChecksum);
                }
            }
            i = i - 1;
        }
        Err(RemoteServiceIdRequestError::ServiceNotFound)
    }

    /// The framed response to a service id request.
    pub fn service_id_response(&self, name: &str, checksum: &[u8]) -> (out: Vec<u8>)
        requires
            self.wf(),
        ensures
            out@ == bytes_field(
                service_id_result_bytes(as_service_id_result(self.lookup_spec(name@, checksum@))),
            ),
    {
        let result: ServiceIdRequestResult = match self.handle_service_request(name, checksum) {
            Ok(id) => Ok(ServiceFound(id)),
            Err(e) => Err(e),
        };
        let envelope = encode_service_id_result(&result);
        frame(envelope.as_slice()).unwrap()
    }

    /// The public service of id `id`, if any.
    pub fn public_service(&self, id: usize) -> (r: Option<&S>)
        ensures
            r is Some <==> id < self.services().len(),
            r is Some ==> *r.unwrap() == self.services()[id as int],
    {
        if id < self.services.len() {
            Some(&self.services[id])
        } else {
            None
        }
    }

    /// The service that a call of `kind` and `id` reaches: a public service
    /// by its index, a private one through the connection's allocator.
    pub fn resolve<'a>(
        &'a self,
        allocator: &'a PrivateServiceAllocator<S>,
        kind: ServiceKind,
        id: u32,
    ) -> (r: Result<&'a S, ServiceCallRequestError>)
        ensures
            r is Ok <==> self.call_target(allocator, kind, id) is Some,
            r is Ok ==> *r.unwrap() == self.call_target(allocator, kind, id).unwrap(),
            r is Err ==> r == Err::<&S, _>(ServiceCallRequestError::InvalidServiceId),
    {
        let target = match kind {
            ServiceKind::Public => self.public_service(id as usize),
            ServiceKind::Private => allocator.get(id as usize),
        };
        match target {
            Some(s) => Ok(s),
            None => Err(ServiceCallRequestError::InvalidServiceId),
        }
    }
}

/// Answers a deallocation request: releases the private service `id` when
/// one lives there.
pub fn handle_private_service_deallocation<S>(
    allocator: &mut PrivateServiceAllocator<S>,
    id: u32,
) -> (r: PrivateServiceDeallocateRequestResult)
    requires
        old(allocator).wf(),
    ensures
        final(allocator).wf(),
        r is Ok <==> old(allocator).live(id as int) is Some,
        r is Ok ==> {
            &&& final(allocator).slots() == old(allocator).slots().update(id as int, None)
            &&& final(allocator).free_ids() == old(allocator).free_ids().push(id as usize)
        },
        r is Err ==> final(allocator).slots() == old(allocator).slots()
            && final(allocator).free_ids() == old(allocator).free_ids(),
{
    match allocator.deallocate_by_id(id as usize) {
        Some(_) => Ok(()),
        None => Err(InvalidPrivateServiceIdError),
    }
}

/// The framed response to a deallocation request, after releasing the
/// private service `id` when one lives there.
pub fn deallocation_response<S>(allocator: &mut PrivateServiceAllocator<S>, id: u32) -> (out: Vec<
    u8,
>)
    requires
        old(allocator).wf(),
    ensures
        final(allocator).wf(),
        old(allocator).live(id as int) is Some ==> {
            &&& out@ == bytes_field(deallocate_result_bytes(Ok(())))
            &&& final(allocator).slots() == old(allocator).slots().update(id as int, None)
            &&& final(allocator).free_ids() == old(allocator).free_ids().push(id as usize)
        },
        old(allocator).live(id as int) is None ==> {
            &&& out@ == bytes_field(deallocate_result_bytes(Err(InvalidPrivateServiceIdError)))
            &&& final(allocator).slots() == old(allocator).slots()
            &&& final(allocator).free_ids() == old(allocator).free_ids()
        },
{
    let result = handle_private_service_deallocation(allocator, id);
    let envelope = encode_deallocate_result(&result);
    frame(envelope.as_slice()).unwrap()
}

/// The bytes that answer a service call whose service gave `result`: the
/// framed envelope, then on success the returned parts. Fails when a part, or
/// the envelope announcing the parts, is too long for the format.
pub fn call_response(result: &Result<MultipartSendable, ServiceCallRequestError>) -> (r: Option<
    Vec<u8>,
>)
    ensures
        r is Some <==> (result matches Ok(returned) ==> returns_sendable(returned@)),
        r is Some ==> r.unwrap()@ == call_response_bytes(
            match result {
                Ok(returned) => Ok(returned@),
                Err(e) => Err(*e),
            },
        ),
{
    match result {
        Ok(returned) => {
            let sizes = match returned.part_sizes() {
                Some(sizes) => sizes,
                None => return None,
            };
            assert(sizes@ =~= sizes_of(returned@));
            if sizes.len() > 0x3fff_fffeusize {
                return None;
            }
            let envelope = encode_call_result(&Ok(sizes)).unwrap();
            proof {
                crate::wire::lemma_u32_run_len(sizes@);
            }
            let mut out = frame(envelope.as_slice()).unwrap();
            let body = returned.concatenated();
            push_all(&mut out, body.as_slice());
            Some(out)
        },
        Err(e) => {
            let envelope = encode_call_result(&Err(*e)).unwrap();
            Some(frame(envelope.as_slice()).unwrap())
        },
    }
}

/// What the server does next on a stream after reading its request frame.
#[derive(Debug)]
pub enum RequestStep {
    /// Send these bytes, then close the stream.
    Reply(Vec<u8>),
    /// Read `total` raw argument bytes laid out in parts of `part_sizes`,
    /// then resolve the call.
    ReadArgs { kind: ServiceKind, id: u32, function_id: u32, part_sizes: Vec<u32>, total: usize },
    /// Close the stream without a response: the request could not be read.
    Close,
}

impl<S> Server<S> {
    /// Handles the first frame of a stream: answers a service id request,
    /// performs a deallocation, or says how many argument bytes a call still
    /// needs. A frame that is no request, or a call whose argument sizes add
    /// up past a `usize`, closes the stream.
    pub fn handle_request(&self, allocator: &mut PrivateServiceAllocator<S>, frame: &[u8]) -> (r:
        RequestStep)
        requires
            self.wf(),
            old(allocator).wf(),
        ensures
            final(allocator).wf(),
            match decode_request_spec(frame@) {
                None => r is Close && *final(allocator) == *old(allocator),
                Some(RequestSpec::ServiceId { name, checksum }) => {
                    &&& r matches RequestStep::Reply(out) && out@ == bytes_field(
                        service_id_result_bytes(as_service_id_result(self.lookup_spec(name, checksum))),
                    )
                    &&& *final(allocator) == *old(allocator)
                },
                Some(RequestSpec::DeallocatePrivateService { id }) => r matches RequestStep::Reply(
                    out,
                ) && if old(allocator).live(id as int) is Some {
                    &&& out@ == bytes_field(deallocate_result_bytes(Ok(())))
                    &&& final(allocator).slots() == old(allocator).slots().update(id as int, None)
                    &&& final(allocator).free_ids() == old(allocator).free_ids().push(id as usize)
                } else {
                    &&& out@ == bytes_field(
                        deallocate_result_bytes(Err(InvalidPrivateServiceIdError)),
                    )
                    &&& final(allocator).slots() == old(allocator).slots()
                    &&& final(allocator).free_ids() == old(allocator).free_ids()
                },
                Some(RequestSpec::ServiceCall { kind, id, function_id, part_sizes }) => {
                    &&& *final(allocator) == *old(allocator)
                    &&& if sum_sizes(part_sizes) <= usize::MAX {
                        r matches RequestStep::ReadArgs {
                            kind: k,
                            id: i,
                            function_id: f,
                            part_sizes: sizes,
                            total,
                        } && k == kind && i == id && f == function_id && sizes@ == part_sizes
                            && total == sum_sizes(part_sizes)
                    } else {
                        r is Close
                    }
                },
            },
    {
        match decode_request(frame) {
            Err(_) => RequestStep::Close,
            Ok(RequestKind::ServiceId { name, checksum }) => RequestStep::Reply(
                self.service_id_response(name, checksum),
            ),
            Ok(RequestKind::DeallocatePrivateService { id }) => RequestStep::Reply(
                deallocation_response(allocator, id),
            ),
            Ok(RequestKind::ServiceCall { kind, id, function_id, part_sizes }) => {
                match MultipartReceived::total_size(part_sizes.as_slice()) {
                    Some(total) => RequestStep::ReadArgs { kind, id, function_id, part_sizes, total },
                    None => RequestStep::Close,
                }
            },
        }
    }
}

/// What the server does with a call once its arguments are in.
#[derive(Debug)]
pub enum CallDispatch<'a, S> {
    /// Call this service with these arguments.
    Call(&'a S, MultipartReceived),
    /// Send these bytes: the call reaches no service.
    Reply(Vec<u8>),
}

impl<S> Server<S> {
    /// Takes the argument bytes of a call announced with `part_sizes`: the
    /// service to call with them laid out in parts, or the reply that the
    /// call reaches no service. `None` when the bytes are not as many as the
    /// sizes announced, in which case nothing may be dispatched.
    pub fn dispatch_call<'a>(
        &'a self,
        allocator: &'a PrivateServiceAllocator<S>,
        kind: ServiceKind,
        id: u32,
        part_sizes: &[u32],
        args: Vec<u8>,
    ) -> (r: Option<CallDispatch<'a, S>>)
        ensures
            r is Some <==> args@.len() == sum_sizes(part_sizes@),
            r matches Some(CallDispatch::Call(service, received)) ==> {
                &&& self.call_target(allocator, kind, id) == Some(*service)
                &&& received.bytes() == args@
                &&& received.sizes() == part_sizes@
            },
            r matches Some(CallDispatch::Reply(out)) ==> {
                &&& self.call_target(allocator, kind, id) is None
                &&& out@ == call_response_bytes(Err(ServiceCallRequestError::InvalidServiceId))
            },
            r is Some && self.call_target(allocator, kind, id) is Some ==> r matches Some(
                CallDispatch::Call(_, _),
            ),
    {
        let received = match MultipartReceived::from_buffer(args, part_sizes) {
            Some(received) => received,
            None => return None,
        };
        match self.resolve(allocator, kind, id) {
            Ok(service) => Some(CallDispatch::Call(service, received)),
            Err(e) => {
                let result: Result<MultipartSendable, ServiceCallRequestError> = Err(e);
                let out = call_response(&result).unwrap();
                Some(CallDispatch::Reply(out))
            },
        }
    }
}

/// A service id request naming a registered service with its checksum is
/// answered with that service's id, the index of its implementation; a later
/// registration under the same name would shadow it.
pub proof fn lemma_registered_service_found<S>(server: &Server<S>, id: int)
    requires
        server.wf(),
        0 <= id < server.services().len(),
        forall|j: int| id < j < server.services().len() ==> server.names()[j] != server.names()[id],
    ensures
        server.lookup_spec(server.names()[id], server.checksums()[id]) == Ok::<
            u32,
            RemoteServiceIdRequestError,
        >(id as u32),
        id as u32 == id,
{
    lemma_last_index_of(server.names(), server.names()[id]);
}

/// A service id request naming a registered service with any other checksum
/// than the one it was registered with is answered `InvalidChecksum`.
pub proof fn lemma_wrong_checksum_rejected<S>(server: &Server<S>, id: int, checksum: Seq<u8>)
    requires
        server.wf(),
        0 <= id < server.services().len(),
        forall|j: int| id < j < server.services().len() ==> server.names()[j] != server.names()[id],
        checksum != server.checksums()[id],
    ensures
        server.lookup_spec(server.names()[id], checksum) == Err::<u32, RemoteServiceIdRequestError>(
            RemoteServiceIdRequestError::InvalidChecksum,
        ),
{
    lemma_last_index_of(server.names(), server.names()[id]);
}

/// A service id request naming no registered service is answered
/// `ServiceNotFound`, whatever the checksum.
pub proof fn lemma_unknown_name_not_found<S>(server: &Server<S>, name: Seq<char>, checksum: Seq<u8>)
    requires
        server.wf(),
        forall|j: int| 0 <= j < server.services().len() ==> server.names()[j] != name,
    ensures
        server.lookup_spec(name, checksum) == Err::<u32, RemoteServiceIdRequestError>(
            RemoteServiceIdRequestError::ServiceNotFound,
        ),
{
    lemma_last_index_of(server.names(), name);
}

/// Once a deallocation of the private service `id` has succeeded, a call of
/// the private service `id` reaches nothing, so it is answered
/// `InvalidServiceId`.
pub proof fn lemma_deallocated_service_unreachable<S>(
    server: &Server<S>,
    before: &PrivateServiceAllocator<S>,
    after: &PrivateServiceAllocator<S>,
    id: u32,
)
    requires
        before.live(id as int) is Some,
        after.slots() == before.slots().update(id as int, None),
    ensures
        server.call_target(after, ServiceKind::Private, id) is None,
{
}

} // verus!
