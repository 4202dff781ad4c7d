use rustyrpc::allocator::ServiceRef;
use rustyrpc::codec::{
    decode_call_result, decode_deallocate_result, decode_option_service_ref, decode_request,
    decode_service_id_result, decode_service_ref, decode_string, decode_u32, encode_call_result,
    encode_deallocate_result, encode_option_service_ref, encode_request, encode_service_id_result,
    encode_service_ref, encode_string, encode_u32, Decode, Encode, ServiceRefDecodeError,
    ServiceRefEncodeError, WireDecodeError, WireFormat,
};
use rustyrpc::protocol::{
    InvalidPrivateServiceIdError, RemoteServiceIdRequestError, RequestKind,
    ServiceCallRequestError, ServiceFound, ServiceKind,
};
use rustyrpc::wire::{frame, message_length};

#[test]
fn frame_prefixes_big_endian_length() {
    let framed = frame(b"abc").unwrap();
    assert_eq!(framed, vec![0, 0, 0, 3, b'a', b'b', b'c']);
    assert_eq!(frame(b"").unwrap(), vec![0, 0, 0, 0]);
}

#[test]
fn message_length_reads_big_endian_prefix() {
    assert_eq!(message_length([0, 0, 1, 0]).unwrap(), 256);
    assert_eq!(message_length([0x12, 0x34, 0x56, 0x78]).unwrap(), 0x1234_5678);
    assert_eq!(message_length([0xff, 0xff, 0xff, 0xff]).unwrap(), 0xffff_ffff);
}

#[test]
fn service_id_request_layout() {
    let request = RequestKind::ServiceId { name: "Auth", checksum: &[0x01] };
    let bytes = encode_request(&request).unwrap();
    assert_eq!(bytes, vec![0, 0, 0, 0, 4, b'A', b'u', b't', b'h', 0, 0, 0, 1, 0x01]);
}

#[test]
fn service_call_request_layout() {
    let request = RequestKind::ServiceCall {
        kind: ServiceKind::Private,
        id: 2,
        function_id: 0x0102_0304,
        part_sizes: vec![5, 256],
    };
    let bytes = encode_request(&request).unwrap();
    assert_eq!(
        bytes,
        vec![1, 1, 0, 0, 0, 2, 1, 2, 3, 4, 0, 0, 0, 2, 0, 0, 0, 5, 0, 0, 1, 0]
    );
}

#[test]
fn deallocate_request_layout() {
    let request = RequestKind::DeallocatePrivateService { id: 7 };
    assert_eq!(encode_request(&request).unwrap(), vec![2, 0, 0, 0, 7]);
}

#[test]
fn request_round_trips() {
    let checksum = [9u8, 8, 7];
    let requests = vec![
        RequestKind::ServiceId { name: "Hello", checksum: &checksum },
        RequestKind::ServiceId { name: "", checksum: &[] },
        RequestKind::ServiceId { name: "héllo✓", checksum: &checksum },
        RequestKind::ServiceCall {
            kind: ServiceKind::Public,
            id: 0,
            function_id: 3,
            part_sizes: vec![],
        },
        RequestKind::ServiceCall {
            kind: ServiceKind::Private,
            id: u32::MAX,
            function_id: u32::MAX,
            part_sizes: vec![1, 2, u32::MAX],
        },
        RequestKind::DeallocatePrivateService { id: 42 },
    ];
    for request in &requests {
        let bytes = encode_request(request).unwrap();
        let decoded = decode_request(&bytes).unwrap();
        match (request, &decoded) {
            (
                RequestKind::ServiceId { name: a, checksum: b },
                RequestKind::ServiceId { name: c, checksum: d },
            ) => {
                assert_eq!(a, c);
                assert_eq!(b, d);
            }
            (
                RequestKind::ServiceCall { kind: k1, id: i1, function_id: f1, part_sizes: p1 },
                RequestKind::ServiceCall { kind: k2, id: i2, function_id: f2, part_sizes: p2 },
            ) => {
                assert_eq!(k1, k2);
                assert_eq!(i1, i2);
                assert_eq!(f1, f2);
                assert_eq!(p1, p2);
            }
            (
                RequestKind::DeallocatePrivateService { id: a },
                RequestKind::DeallocatePrivateService { id: b },
            ) => assert_eq!(a, b),
            _ => panic!("decoded request of another kind"),
        }
    }
}

#[test]
fn request_decode_rejects_malformed_buffers() {
    assert_eq!(decode_request(&[]).unwrap_err(), WireDecodeError);
    assert_eq!(decode_request(&[3, 0, 0, 0, 1]).unwrap_err(), WireDecodeError);
    assert_eq!(decode_request(&[2, 0, 0, 0]).unwrap_err(), WireDecodeError);
    assert_eq!(decode_request(&[2, 0, 0, 0, 7, 0]).unwrap_err(), WireDecodeError);
    assert_eq!(decode_request(&[1, 2, 0, 0, 0, 0, 0, 0, 0, 0, 0, 0, 0, 0]).unwrap_err(), WireDecodeError);
    assert_eq!(decode_request(&[0, 0, 0, 0, 1, 0xff, 0, 0, 0, 0]).unwrap_err(), WireDecodeError);
    assert_eq!(decode_request(&[0, 0, 0, 0, 9, b'a']).unwrap_err(), WireDecodeError);
}

#[test]
fn service_id_result_round_trips() {
    let cases = [
        Ok(ServiceFound(0)),
        Ok(ServiceFound(0xdead_beef)),
        Err(RemoteServiceIdRequestError::ServiceNotFound),
        Err(RemoteServiceIdRequestError::InvalidChecksum),
    ];
    for case in cases {
        let bytes = encode_service_id_result(&case);
        assert_eq!(decode_service_id_result(&bytes).unwrap(), case);
    }
    assert_eq!(encode_service_id_result(&Ok(ServiceFound(258))), vec![0, 0, 0, 1, 2]);
    assert_eq!(
        encode_service_id_result(&Err(RemoteServiceIdRequestError::InvalidChecksum)),
        vec![1, 1]
    );
    assert!(decode_service_id_result(&[1, 2]).is_err());
}

#[test]
fn call_result_round_trips() {
    let cases: Vec<Result<Vec<u32>, ServiceCallRequestError>> = vec![
        Ok(vec![]),
        Ok(vec![17, 0, 3]),
        Err(ServiceCallRequestError::InvalidServiceId),
        Err(ServiceCallRequestError::InvalidFunctionId),
        Err(ServiceCallRequestError::ArgsDecode),
        Err(ServiceCallRequestError::ServerInternal),
    ];
    for case in cases {
        let bytes = encode_call_result(&case).unwrap();
        assert_eq!(decode_call_result(&bytes).unwrap(), case);
    }
    assert_eq!(encode_call_result(&Ok(vec![4])).unwrap(), vec![0, 0, 0, 0, 1, 0, 0, 0, 4]);
    assert_eq!(
        encode_call_result(&Err(ServiceCallRequestError::ServerInternal)).unwrap(),
        vec![1, 3]
    );
    assert!(decode_call_result(&[1, 4]).is_err());
    assert!(decode_call_result(&[0, 0, 0, 0, 2, 0, 0, 0, 4]).is_err());
}

#[test]
fn deallocate_result_round_trips() {
    let ok: Result<(), InvalidPrivateServiceIdError> = Ok(());
    let err: Result<(), InvalidPrivateServiceIdError> = Err(InvalidPrivateServiceIdError);
    assert_eq!(encode_deallocate_result(&ok), vec![0]);
    assert_eq!(encode_deallocate_result(&err), vec![1]);
    assert_eq!(decode_deallocate_result(&encode_deallocate_result(&ok)).unwrap(), ok);
    assert_eq!(decode_deallocate_result(&encode_deallocate_result(&err)).unwrap(), err);
    assert!(decode_deallocate_result(&[2]).is_err());
    assert!(decode_deallocate_result(&[0, 0]).is_err());
}

#[test]
fn service_ref_round_trips() {
    let service_ref = ServiceRef { service_id: 5, service_checksum: vec![1, 2, 3] };
    let bytes = encode_service_ref(&service_ref).unwrap();
    assert_eq!(bytes, vec![0, 0, 0, 5, 0, 0, 0, 3, 1, 2, 3]);
    let decoded = decode_service_ref(&bytes).unwrap();
    assert_eq!(decoded.service_id, 5);
    assert_eq!(decoded.service_checksum, vec![1, 2, 3]);
    assert_eq!(
        decode_service_ref(&[0, 0, 0, 5, 0, 0, 0, 4, 1, 2, 3]).unwrap_err(),
        ServiceRefDecodeError::Decode(WireDecodeError)
    );
}

#[test]
fn service_ref_with_too_large_id_is_rejected() {
    let too_large = (u32::MAX as usize).checked_add(1);
    if let Some(id) = too_large {
        let service_ref = ServiceRef { service_id: id, service_checksum: vec![] };
        assert_eq!(
            encode_service_ref(&service_ref).unwrap_err(),
            ServiceRefEncodeError::InvalidServiceId
        );
    }
}

#[test]
fn option_service_ref_round_trips() {
    assert_eq!(encode_option_service_ref(&None).unwrap(), vec![0]);
    assert!(decode_option_service_ref(&[0]).unwrap().is_none());
    let some = Some(ServiceRef { service_id: 1, service_checksum: vec![0xaa] });
    let bytes = encode_option_service_ref(&some).unwrap();
    assert_eq!(bytes, vec![1, 0, 0, 0, 1, 0, 0, 0, 1, 0xaa]);
    let decoded = decode_option_service_ref(&bytes).unwrap().unwrap();
    assert_eq!(decoded.service_id, 1);
    assert_eq!(decoded.service_checksum, vec![0xaa]);
    assert!(decode_option_service_ref(&[2]).is_err());
}

#[test]
fn plain_values_round_trip() {
    assert_eq!(encode_u32(0x0a0b_0c0d), vec![0x0a, 0x0b, 0x0c, 0x0d]);
    assert_eq!(decode_u32(&[0, 0, 1, 1]).unwrap(), 257);
    assert!(decode_u32(&[0, 0, 1]).is_err());
    let text = "Hello from server";
    assert_eq!(encode_string(text), text.as_bytes().to_vec());
    assert_eq!(decode_string(&encode_string("héllo")).unwrap(), "héllo");
    assert!(decode_string(&[0xff, 0xfe]).is_err());
    let encoded = <String as Encode<WireFormat>>::encode(&"abc".to_string()).unwrap();
    assert_eq!(<String as Decode<WireFormat>>::decode(&encoded).unwrap(), "abc");
    let unit = <() as Encode<WireFormat>>::encode(&()).unwrap();
    assert!(unit.is_empty());
    assert!(<() as Decode<WireFormat>>::decode(&[1]).is_err());
}
