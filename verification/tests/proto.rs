use morsh::proto::client;
use morsh::proto::fault::find_fault;
use morsh::proto::host;
use morsh::proto::transport;
use morsh::proto::wire::DecodeError;
use prost::encoding::DecodeContext;
use prost::Message;

#[test]
fn transport_instruction_roundtrip() {
    let msg = transport::Instruction {
        protocol_version: Some(transport::MOSH_PROTOCOL_VERSION),
        old_num: Some(42),
        new_num: Some(43),
        ack_num: Some(10),
        throwaway_num: Some(5),
        diff: Some(b"hello world".to_vec()),
        chaff: Some(vec![0u8; 32]),
    };

    let buf = msg.encode();

    let decoded = transport::Instruction::decode(buf.as_slice()).unwrap();
    assert_eq!(decoded.protocol_version, msg.protocol_version);
    assert_eq!(decoded.old_num, msg.old_num);
    assert_eq!(decoded.new_num, msg.new_num);
    assert_eq!(decoded.ack_num, msg.ack_num);
    assert_eq!(decoded.throwaway_num, msg.throwaway_num);
    assert_eq!(decoded.diff, msg.diff);
    assert_eq!(decoded.chaff, msg.chaff);
}

#[test]
fn host_message_roundtrip() {
    let instruction = host::Instruction {
        hostbytes: Some(host::HostBytes { hoststring: Some(b"\x1b[2JHello!".to_vec()) }),
        resize: None,
        echoack: Some(host::EchoAck { echo_ack_num: Some(12345) }),
    };

    let msg = host::HostMessage { instruction: vec![instruction] };

    let buf = msg.encode();

    let decoded = host::HostMessage::decode(buf.as_slice()).unwrap();
    assert_eq!(decoded.instruction.len(), 1);
    let inst = &decoded.instruction[0];
    assert_eq!(
        inst.hostbytes.as_ref().unwrap().hoststring,
        Some(b"\x1b[2JHello!".to_vec())
    );
    assert_eq!(inst.echoack.as_ref().unwrap().echo_ack_num, Some(12345));
    assert!(inst.resize.is_none());
}

#[test]
fn user_message_roundtrip() {
    let instruction = client::Instruction {
        keystroke: Some(client::Keystroke { keys: Some(b"a".to_vec()) }),
        resize: Some(client::ResizeMessage { width: Some(80), height: Some(24) }),
    };

    let msg = client::UserMessage { instruction: vec![instruction] };

    let buf = msg.encode();

    let decoded = client::UserMessage::decode(buf.as_slice()).unwrap();
    assert_eq!(decoded.instruction.len(), 1);
    let inst = &decoded.instruction[0];
    assert_eq!(inst.keystroke.as_ref().unwrap().keys, Some(b"a".to_vec()));
    let resize = inst.resize.as_ref().unwrap();
    assert_eq!(resize.width, Some(80));
    assert_eq!(resize.height, Some(24));
}

#[test]
fn field_numbers_match_wire_format() {
    let msg = transport::Instruction {
        protocol_version: Some(2),
        old_num: None,
        new_num: None,
        ack_num: None,
        throwaway_num: None,
        diff: None,
        chaff: None,
    };

    let buf = msg.encode();

    assert_eq!(buf, vec![8, 2]);
}

#[test]
fn wire_bytes_are_exact() {
    let msg = transport::Instruction {
        protocol_version: None,
        old_num: Some(300),
        new_num: None,
        ack_num: None,
        throwaway_num: None,
        diff: Some(vec![7, 8]),
        chaff: Some(vec![]),
    };
    assert_eq!(msg.encode(), vec![0x10, 0xac, 0x02, 0x32, 2, 7, 8, 0x3a, 0]);
    let keys = client::UserMessage {
        instruction: vec![client::Instruction {
            keystroke: Some(client::Keystroke { keys: Some(b"hi".to_vec()) }),
            resize: Some(client::ResizeMessage { width: Some(-1), height: None }),
        }],
    };
    let bytes = keys.encode();
    assert_eq!(bytes[..8], [0x0a, 19, 0x12, 4, 0x22, 2, b'h', b'i']);
    assert_eq!(client::UserMessage::decode(&bytes).unwrap(), keys);
}

#[test]
fn unknown_fields_are_skipped() {
    let bytes = [0x10, 5, 0xfa, 0x01, 2, 9, 9, 0x18, 6, 0x10, 7];
    let inst = transport::Instruction::decode(&bytes).unwrap();
    assert_eq!(inst.old_num, Some(7));
    assert_eq!(inst.new_num, Some(6));
}

#[test]
fn broken_messages_are_refused() {
    assert_eq!(transport::Instruction::decode(&[0x10]), Err(DecodeError));
    assert_eq!(transport::Instruction::decode(&[0x32, 5, 1]), Err(DecodeError));
    assert_eq!(transport::Instruction::decode(&[0x12, 1, 0]), Err(DecodeError));
    assert_eq!(transport::Instruction::decode(&[0x00]), Err(DecodeError));
    assert!(client::UserMessage::decode(&[0x0a, 2, 0x12]).is_err());
    assert!(host::HostMessage::decode(&[0xff; 11]).is_err());
}

#[test]
fn numbers_are_written_as_other_codecs_write_them() {
    for n in [0u64, 1, 127, 128, 300, u32::MAX as u64, u64::MAX] {
        let msg = transport::Instruction {
            protocol_version: None,
            old_num: Some(n),
            new_num: None,
            ack_num: None,
            throwaway_num: None,
            diff: None,
            chaff: None,
        };
        let mut want = vec![0x10];
        prost::encoding::encode_varint(n, &mut want);
        assert_eq!(msg.encode(), want);
    }
    let text = b"some bytes".to_vec();
    let mut wrapped = vec![0x0a];
    let inner = {
        let mut out = vec![0x12];
        let body = {
            let mut b = vec![0x22];
            prost::encoding::encode_varint(text.len() as u64, &mut b);
            b.extend_from_slice(&text);
            b
        };
        prost::encoding::encode_varint(body.len() as u64, &mut out);
        out.extend_from_slice(&body);
        out
    };
    prost::encoding::encode_varint(inner.len() as u64, &mut wrapped);
    wrapped.extend_from_slice(&inner);
    let msg = client::UserMessage {
        instruction: vec![client::Instruction {
            keystroke: Some(client::Keystroke { keys: Some(text) }),
            resize: None,
        }],
    };
    assert_eq!(msg.encode(), wrapped);
    assert!(<() as Message>::decode(&wrapped[..]).is_ok());
}

/// The first fault that another codec finds in the bytes of an instruction.
fn other_fault(bytes: &[u8]) -> Option<String> {
    let names = ["protocol_version", "old_num", "new_num", "ack_num", "throwaway_num", "diff", "chaff"];
    let mut buf = bytes;
    while !buf.is_empty() {
        let (tag, wire) = match prost::encoding::decode_key(&mut buf) {
            Ok(key) => key,
            Err(e) => return Some(e.to_string()),
        };
        let ctx = DecodeContext::default();
        let done = match tag {
            1 => prost::encoding::uint32::merge(wire, &mut 0, &mut buf, ctx),
            2..=5 => prost::encoding::uint64::merge(wire, &mut 0, &mut buf, ctx),
            6 | 7 => prost::encoding::bytes::merge(wire, &mut Vec::<u8>::new(), &mut buf, ctx),
            _ => prost::encoding::skip_field(wire, tag, &mut buf, ctx),
        };
        if let Err(mut e) = done {
            if tag <= 7 {
                e.push("Instruction", names[tag as usize - 1]);
            }
            return Some(e.to_string());
        }
    }
    None
}

fn check_fault(bytes: &[u8]) {
    let found = find_fault(bytes).map(|f| format!("failed to decode Protobuf message: {f}"));
    assert_eq!(found, other_fault(bytes), "{bytes:?}");
    assert_eq!(found.is_none(), transport::Instruction::decode(bytes).is_ok(), "{bytes:?}");
}

#[test]
fn faults_are_named_as_other_codecs_name_them() {
    assert_eq!(find_fault(&[0x32, 5, 1]).unwrap(), "Instruction.diff: buffer underflow");
    assert_eq!(find_fault(&[0x10]).unwrap(), "Instruction.old_num: invalid varint");
    assert_eq!(
        find_fault(&[0x12, 1, 0]).unwrap(),
        "Instruction.old_num: invalid wire type: LengthDelimited (expected Varint)"
    );
    assert_eq!(find_fault(&[0]).unwrap(), "invalid tag value: 0");
    assert_eq!(find_fault(&[0x0e]).unwrap(), "invalid wire type value: 6");
    assert_eq!(
        find_fault(&[0x80, 0x80, 0x80, 0x80, 0x10]).unwrap(),
        "invalid key value: 4294967296"
    );
    assert_eq!(find_fault(&[0x44]).unwrap(), "unexpected end group tag");
    assert_eq!(find_fault(&[0x43, 0x4c]).unwrap(), "unexpected end group tag");
    assert_eq!(find_fault(&[0x43; 200]).unwrap(), "recursion limit reached");
    assert!(find_fault(&[]).is_none());
    assert!(find_fault(&[0x10, 1, 0x43, 0x48, 5, 0x44]).is_none());
    let mut seed: u64 = 1;
    for _ in 0..20_000 {
        let mut bytes = Vec::new();
        seed = seed.wrapping_mul(6364136223846793005).wrapping_add(1442695040888963407);
        for i in 0..seed >> 60 {
            seed = seed.wrapping_mul(6364136223846793005).wrapping_add(1442695040888963407);
            let byte = (seed >> 33) as u8;
            bytes.push(if (seed >> 50) % 3 == 0 || i % 5 == 4 { byte } else { byte & 0x7f });
        }
        check_fault(&bytes);
    }
    for a in 0..=255u8 {
        for b in 0..=255u8 {
            check_fault(&[a, b]);
            check_fault(&[0x43, a, b, 0x44]);
        }
    }
}
