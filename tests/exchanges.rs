use rustyrpc::allocator::PrivateServiceAllocator;
use rustyrpc::client::{
    call_response_layout, deallocate_request, deallocation_from_response, first_part,
    service_call_request, service_id_from_response, service_id_request, ResponseError,
    ServiceHandle,
};
use rustyrpc::codec::{decode_option_service_ref, decode_string, encode_option_service_ref, encode_string};
use rustyrpc::multipart::{MultipartReceived, MultipartSendable};
use rustyrpc::protocol::{RemoteServiceIdRequestError, ServiceCallRequestError, ServiceKind};
use rustyrpc::server::{call_response, CallDispatch, RequestStep, Server, ServerBuilder};
use rustyrpc::stream_pool::{PoolGet, StreamPool};

const HELLO_CHECKSUM: &[u8] = &[0x10];

fn auth_server() -> Server<&'static str> {
    ServerBuilder::new()
        .with_boxed_service("Auth".to_string(), vec![0x01], "auth")
        .build()
}

/// Strips the 4-byte length prefix of a frame that starts `bytes`, giving the
/// frame's payload and what follows it.
fn split_frame(bytes: &[u8]) -> (&[u8], &[u8]) {
    let length = rustyrpc::wire::message_length([bytes[0], bytes[1], bytes[2], bytes[3]]).unwrap();
    (&bytes[4..4 + length], &bytes[4 + length..])
}

/// Runs one service call exchange between the client functions and the
/// server functions, the service being answered by `respond`.
fn call(
    server: &Server<&'static str>,
    allocator: &mut PrivateServiceAllocator<&'static str>,
    kind: ServiceKind,
    id: u32,
    respond: impl Fn(&str) -> Result<MultipartSendable, ServiceCallRequestError>,
) -> Result<Vec<u8>, ResponseError<ServiceCallRequestError>> {
    let args = MultipartSendable::with_capacity(1).with_part(vec![]);
    let request = service_call_request(kind, id, 0, &args).unwrap();
    let (envelope, body) = split_frame(&request);
    let returned = match server.handle_request(allocator, envelope) {
        RequestStep::ReadArgs { kind, id, part_sizes, total, .. } => {
            assert_eq!(total, body.len());
            match server.dispatch_call(allocator, kind, id, &part_sizes, body.to_vec()) {
                Some(CallDispatch::Call(service, args)) => {
                    assert_eq!(args.part_count(), 1);
                    call_response(&respond(service)).unwrap()
                }
                Some(CallDispatch::Reply(bytes)) => {
                    assert!(server.resolve(allocator, kind, id).is_err());
                    bytes
                }
                None => panic!("arguments do not match their sizes"),
            }
        }
        other => panic!("unexpected step {other:?}"),
    };
    let (envelope, body) = split_frame(&returned);
    let (sizes, total) = call_response_layout(envelope)?;
    assert_eq!(total, body.len());
    let parts = MultipartReceived::from_buffer(body.to_vec(), &sizes).unwrap();
    Ok(first_part(&parts).unwrap().to_vec())
}

fn hello_response(service: &str) -> Result<MultipartSendable, ServiceCallRequestError> {
    assert_eq!(service, "hello");
    Ok(MultipartSendable::from_parts(vec![encode_string("Hello from server")]))
}

fn lookup(server: &Server<&'static str>, name: &str, checksum: &[u8]) -> Result<u32, ResponseError<RemoteServiceIdRequestError>> {
    let mut allocator = PrivateServiceAllocator::new();
    let request = service_id_request(name, checksum).unwrap();
    let (envelope, rest) = split_frame(&request);
    assert!(rest.is_empty());
    match server.handle_request(&mut allocator, envelope) {
        RequestStep::Reply(bytes) => {
            let (envelope, rest) = split_frame(&bytes);
            assert!(rest.is_empty());
            service_id_from_response(envelope)
        }
        other => panic!("unexpected step {other:?}"),
    }
}

#[test]
fn lookup_miss() {
    let server = auth_server();
    assert_eq!(
        lookup(&server, "Unknown", &[0x01]),
        Err(ResponseError::Remote(RemoteServiceIdRequestError::ServiceNotFound))
    );
    assert_eq!(
        server.handle_service_request("Unknown", &[]),
        Err(RemoteServiceIdRequestError::ServiceNotFound)
    );
}

#[test]
fn checksum_mismatch() {
    let server = auth_server();
    assert_eq!(
        lookup(&server, "Auth", &[0x02]),
        Err(ResponseError::Remote(RemoteServiceIdRequestError::InvalidChecksum))
    );
}

#[test]
fn registered_services_are_found_by_id() {
    let server = ServerBuilder::new()
        .with_boxed_service("Auth".to_string(), vec![0x01], "auth")
        .with_boxed_service("Hello".to_string(), HELLO_CHECKSUM.to_vec(), "hello")
        .build();
    assert_eq!(lookup(&server, "Auth", &[0x01]), Ok(0));
    assert_eq!(lookup(&server, "Hello", HELLO_CHECKSUM), Ok(1));
    assert_eq!(server.public_service(1), Some(&"hello"));
    assert_eq!(server.public_service(2), None);
}

#[test]
fn later_registration_of_a_name_shadows_earlier() {
    let server = ServerBuilder::new()
        .with_boxed_service("Echo".to_string(), vec![1], "first")
        .with_boxed_service("Echo".to_string(), vec![2], "second")
        .build();
    assert_eq!(server.handle_service_request("Echo", &[2]), Ok(1));
    assert_eq!(
        server.handle_service_request("Echo", &[1]),
        Err(RemoteServiceIdRequestError::InvalidChecksum)
    );
}

#[test]
fn successful_call() {
    let server = ServerBuilder::new()
        .with_boxed_service("Hello".to_string(), HELLO_CHECKSUM.to_vec(), "hello")
        .build();
    let mut allocator = PrivateServiceAllocator::new();
    let id = lookup(&server, "Hello", HELLO_CHECKSUM).unwrap();
    let handle = ServiceHandle::public(id);
    let returned = call(&server, &mut allocator, handle.kind, handle.id, hello_response).unwrap();
    assert_eq!(decode_string(&returned).unwrap(), "Hello from server");
    assert_eq!(handle.deallocation_on_drop(), None);
}

#[test]
fn call_of_unknown_public_service_is_invalid_service_id() {
    let server = auth_server();
    let mut allocator = PrivateServiceAllocator::new();
    assert_eq!(
        call(&server, &mut allocator, ServiceKind::Public, 7, hello_response),
        Err(ResponseError::Remote(ServiceCallRequestError::InvalidServiceId))
    );
}

#[test]
fn service_error_reaches_the_client() {
    let server = auth_server();
    let mut allocator = PrivateServiceAllocator::new();
    assert_eq!(
        call(&server, &mut allocator, ServiceKind::Public, 0, |_| Err(
            ServiceCallRequestError::InvalidFunctionId
        )),
        Err(ResponseError::Remote(ServiceCallRequestError::InvalidFunctionId))
    );
}

#[test]
fn capability_mint_use_and_drop() {
    let server = auth_server();
    let mut allocator = PrivateServiceAllocator::new();
    // Auth.auth("admin", "admin") mints the capability and returns its reference.
    let minted = Some(allocator.allocate("hello", HELLO_CHECKSUM.to_vec()));
    let returned = encode_option_service_ref(&minted).unwrap();
    let service_ref = decode_option_service_ref(&returned).unwrap().unwrap();
    let handle = service_ref.into_handle(HELLO_CHECKSUM).unwrap();
    assert_eq!(handle.kind, ServiceKind::Private);
    for _ in 0..3 {
        let bytes = call(&server, &mut allocator, handle.kind, handle.id, hello_response).unwrap();
        assert_eq!(decode_string(&bytes).unwrap(), "Hello from server");
    }
    let id = handle.deallocation_on_drop().unwrap();
    let request = deallocate_request(id);
    let (envelope, _) = split_frame(&request);
    let reply = match server.handle_request(&mut allocator, envelope) {
        RequestStep::Reply(bytes) => bytes,
        other => panic!("unexpected step {other:?}"),
    };
    assert_eq!(deallocation_from_response(split_frame(&reply).0), Ok(()));
    assert_eq!(
        call(&server, &mut allocator, handle.kind, handle.id, hello_response),
        Err(ResponseError::Remote(ServiceCallRequestError::InvalidServiceId))
    );
    let again = match server.handle_request(&mut allocator, envelope) {
        RequestStep::Reply(bytes) => bytes,
        other => panic!("unexpected step {other:?}"),
    };
    assert!(matches!(
        deallocation_from_response(split_frame(&again).0),
        Err(ResponseError::Remote(_))
    ));
}

#[test]
fn capability_with_other_checksum_gives_no_handle() {
    let mut allocator = PrivateServiceAllocator::new();
    let service_ref = allocator.allocate("hello", HELLO_CHECKSUM.to_vec());
    assert_eq!(service_ref.into_handle(&[0x99]), None);
}

#[test]
fn bad_credentials_mint_nothing() {
    let allocator: PrivateServiceAllocator<&str> = PrivateServiceAllocator::new();
    let before = allocator.slot_count();
    // Auth.auth("admin", "wrong") returns None without touching the allocator.
    let returned = encode_option_service_ref(&None).unwrap();
    assert!(decode_option_service_ref(&returned).unwrap().is_none());
    assert_eq!(allocator.slot_count(), before);
}

#[test]
fn allocator_reuses_the_latest_vacated_slot() {
    let mut allocator = PrivateServiceAllocator::new();
    assert_eq!(allocator.allocate("a", vec![]).service_id, 0);
    assert_eq!(allocator.allocate("b", vec![]).service_id, 1);
    assert_eq!(allocator.allocate("c", vec![]).service_id, 2);
    assert_eq!(allocator.deallocate_by_id(0), Some("a"));
    assert_eq!(allocator.deallocate_by_id(2), Some("c"));
    assert_eq!(allocator.deallocate_by_id(2), None);
    assert_eq!(allocator.deallocate_by_id(9), None);
    assert_eq!(allocator.get(0), None);
    assert_eq!(allocator.get(1), Some(&"b"));
    let reused = allocator.allocate("d", vec![7]);
    assert_eq!(reused.service_id, 2);
    assert_eq!(reused.service_checksum, vec![7]);
    assert_eq!(allocator.allocate("e", vec![]).service_id, 0);
    assert_eq!(allocator.allocate("f", vec![]).service_id, 3);
    assert_eq!(allocator.slot_count(), 4);
    let service_ref = allocator.allocate("g", vec![]);
    assert_eq!(allocator.deallocate(service_ref), Some("g"));
}

#[test]
fn malformed_request_closes_the_stream() {
    let server = auth_server();
    let mut allocator = PrivateServiceAllocator::new();
    assert!(matches!(server.handle_request(&mut allocator, &[9, 9]), RequestStep::Close));
}

#[test]
fn concurrent_fan_out_stays_within_pool() {
    let mut pool: StreamPool<u32> = StreamPool::new(4);
    let mut next_stream = 0u32;
    let mut held = Vec::new();
    let mut waiting = 0;
    for _ in 0..16 {
        match pool.get() {
            PoolGet::Open => {
                held.push(next_stream);
                next_stream += 1;
            }
            PoolGet::Reuse(stream) => held.push(stream),
            PoolGet::Wait => waiting += 1,
        }
        assert!(pool.opened_count() <= 4);
    }
    assert_eq!(held.len(), 4);
    assert_eq!(waiting, 12);
    // Each finished call gives its stream back and one waiter takes it.
    let mut served = held.len();
    while let Some(stream) = held.pop() {
        pool.put_back(stream);
        if waiting > 0 {
            match pool.get() {
                PoolGet::Reuse(stream) => {
                    held.insert(0, stream);
                    waiting -= 1;
                    served += 1;
                }
                other => panic!("expected a reused stream, got {other:?}"),
            }
        }
        assert!(pool.opened_count() <= 4);
    }
    assert_eq!(served, 16);
    assert_eq!(pool.opened_count(), 4);
    assert_eq!(pool.idle_count(), 4);
}

#[test]
fn multipart_parts_are_laid_out_in_order() {
    let received = MultipartReceived::from_buffer(vec![1, 2, 3, 4, 5], &[2, 0, 3]).unwrap();
    assert_eq!(received.part_count(), 3);
    assert_eq!(received.get_part(0), Some(&[1u8, 2][..]));
    assert_eq!(received.get_part(1), Some(&[][..]));
    assert_eq!(received.get_part(2), Some(&[3u8, 4, 5][..]));
    assert_eq!(received.get_part(3), None);
    assert_eq!(received.as_bytes(), &[1, 2, 3, 4, 5]);
    assert!(MultipartReceived::from_buffer(vec![1, 2], &[3]).is_none());
    assert_eq!(MultipartReceived::total_size(&[2, 0, 3]), Some(5));
    assert_eq!(MultipartReceived::total_size(&[u32::MAX, u32::MAX]), Some(2 * u32::MAX as usize));
}

#[test]
fn multipart_sendable_sizes_and_body() {
    let parts = MultipartSendable::with_capacity(2).with_part(vec![1, 2]).with_part(vec![3]);
    assert_eq!(parts.part_count(), 2);
    assert_eq!(parts.part(1), &[3]);
    assert_eq!(parts.part_sizes(), Some(vec![2, 1]));
    assert_eq!(parts.concatenated(), vec![1, 2, 3]);
    let with_value = MultipartSendable::with_capacity(1)
        .with_encodable::<u32, rustyrpc::codec::WireFormat>(&258)
        .unwrap();
    assert_eq!(with_value.part(0), &[0, 0, 1, 2]);
}

#[test]
fn call_request_carries_sizes_then_body() {
    let args = MultipartSendable::from_parts(vec![vec![7, 7], vec![8]]);
    let bytes = service_call_request(ServiceKind::Public, 1, 2, &args).unwrap();
    assert_eq!(
        bytes,
        vec![0, 0, 0, 22, 1, 0, 0, 0, 0, 1, 0, 0, 0, 2, 0, 0, 0, 2, 0, 0, 0, 2, 0, 0, 0, 1, 7, 7, 8]
    );
}

#[test]
fn call_with_short_arguments_is_not_dispatched() {
    let server = auth_server();
    let allocator = PrivateServiceAllocator::new();
    assert!(server
        .dispatch_call(&allocator, ServiceKind::Public, 0, &[3, 1], vec![1, 2, 3])
        .is_none());
    assert!(matches!(
        server.dispatch_call(&allocator, ServiceKind::Public, 0, &[3, 1], vec![1, 2, 3, 4]),
        Some(CallDispatch::Call(&"auth", _))
    ));
    assert!(matches!(
        server.dispatch_call(&allocator, ServiceKind::Private, 0, &[], vec![]),
        Some(CallDispatch::Reply(_))
    ));
}
