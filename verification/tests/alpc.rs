use ipc_bench::alpc::{
    alpc_child_step, alpc_reply_check, check_connection_reply, check_connection_request,
    connection_reply_key, reply_key, AlpcChildStep, ReplyKey, LPC_CANCELED, LPC_CONNECTION_REPLY,
    LPC_CONNECTION_REQUEST, LPC_DATAGRAM, LPC_PORT_CLOSED, message_kind, ntstatus_result, reply_required, unicode_string_lengths,
    validate_alpc_message_size, MessageBuffer, PortMessageLayout,
};

const HEADER: usize = 40;

#[test]
fn alpc_message_size_limit() {
    assert_eq!(validate_alpc_message_size(32727, HEADER), Ok(()));
    assert_eq!(
        validate_alpc_message_size(32728, HEADER),
        Err("alpc supports message sizes up to 32727 bytes on this build, got 32728".to_string())
    );
    assert_eq!(
        validate_alpc_message_size(1, 40000),
        Err("alpc supports message sizes up to 0 bytes on this build, got 1".to_string())
    );
    assert_eq!(validate_alpc_message_size(0, 40000), Ok(()));
}

#[test]
fn message_buffer_sizing() {
    let word = std::mem::size_of::<usize>();
    let b = MessageBuffer::new(0, HEADER);
    assert_eq!(b.storage.len(), HEADER.div_ceil(word));
    assert_eq!(b.capacity_bytes(), HEADER.div_ceil(word) * word);
    assert_eq!(b.payload_capacity(HEADER), b.capacity_bytes() - HEADER);
    let b = MessageBuffer::new(1, HEADER);
    assert_eq!(b.capacity_bytes(), (HEADER + 1).div_ceil(word) * word);
    assert!(b.storage.iter().all(|&w| w == 0));
    let b = MessageBuffer::new(0, 0);
    assert_eq!(b.storage.len(), 1);
    assert_eq!(b.payload_capacity(10_000), 0);
}

const LAYOUT: PortMessageLayout = PortMessageLayout { header_size: 40, message_id_at: 24, callback_id_at: 32 };

fn buffer_bytes(b: &MessageBuffer) -> Vec<u8> {
    b.storage.iter().flat_map(|w| w.to_le_bytes()).collect()
}

fn le16(bytes: &[u8], at: usize) -> usize {
    u16::from_le_bytes([bytes[at], bytes[at + 1]]) as usize
}

fn le32(bytes: &[u8], at: usize) -> u32 {
    u32::from_le_bytes([bytes[at], bytes[at + 1], bytes[at + 2], bytes[at + 3]])
}

#[test]
fn prepare_send_grows_and_zeroes() {
    let mut b = MessageBuffer::new(0, HEADER);
    b.storage[0] = 7;
    b.storage[1] = usize::MAX;
    assert_eq!(b.prepare_send(&[], &LAYOUT, None), Ok(()));
    let bytes = buffer_bytes(&b);
    assert_eq!(le16(&bytes, 0), 0);
    assert_eq!(le16(&bytes, 2), HEADER);
    assert!(bytes[4..].iter().all(|&x| x == 0));
    let before = b.storage.len();
    let payload: Vec<u8> = (0..1000u32).map(|i| (i % 251) as u8).collect();
    assert_eq!(b.prepare_send(&payload, &LAYOUT, None), Ok(()));
    assert!(b.storage.len() > before);
    assert!(b.capacity_bytes() >= 1040);
    let big = vec![1u8; 40000];
    assert_eq!(
        b.prepare_send(&big, &LAYOUT, None),
        Err("ALPC payload exceeds i16 size".to_string())
    );
    assert!(b.storage.iter().all(|&w| w == 0));
    let near = vec![1u8; 32760];
    assert_eq!(
        b.prepare_send(&near, &LAYOUT, None),
        Err("ALPC message exceeds i16 size".to_string())
    );
    let most = vec![9u8; 32727];
    assert_eq!(b.prepare_send(&most, &LAYOUT, None), Ok(()));
    let bytes = buffer_bytes(&b);
    assert_eq!(le16(&bytes, 0), 32727);
    assert_eq!(le16(&bytes, 2), 32767);
}

#[test]
fn prepare_send_writes_header_and_payload() {
    let mut b = MessageBuffer::new(4, HEADER);
    let payload = [0xAB, 0x01, 0xFF, 0x7E, 0x10];
    let key = ReplyKey { message_id: 0x1234_5678, callback_id: 0xDEAD_BEEF };
    assert_eq!(b.prepare_send(&payload, &LAYOUT, Some(key)), Ok(()));
    let bytes = buffer_bytes(&b);
    assert_eq!(bytes.len(), b.capacity_bytes());
    assert_eq!(le16(&bytes, 0), 5);
    assert_eq!(le16(&bytes, 2), 45);
    assert_eq!(message_kind(i16::from_le_bytes([bytes[4], bytes[5]])), 0);
    assert_eq!(le32(&bytes, 24), 0x1234_5678);
    assert_eq!(le32(&bytes, 32), 0xDEAD_BEEF);
    assert_eq!(&bytes[40..45], &payload);
    assert!(bytes[4..24].iter().all(|&x| x == 0));
    assert!(bytes[28..32].iter().all(|&x| x == 0));
    assert!(bytes[36..40].iter().all(|&x| x == 0));
    assert!(bytes[45..].iter().all(|&x| x == 0));

    assert_eq!(b.prepare_send(&payload[..2], &LAYOUT, None), Ok(()));
    let bytes = buffer_bytes(&b);
    assert_eq!(le16(&bytes, 0), 2);
    assert_eq!(le16(&bytes, 2), 42);
    assert_eq!(&bytes[40..42], &payload[..2]);
    assert!(bytes[4..40].iter().all(|&x| x == 0));
    assert!(bytes[42..].iter().all(|&x| x == 0));
}

#[test]
fn type_field_bits() {
    assert_eq!(message_kind(3), 3);
    assert_eq!(message_kind(0x200A), 10);
    assert_eq!(message_kind(-1), 0xff);
    assert!(reply_required(0x200A));
    assert!(!reply_required(0x000A));
    assert!(reply_required(-1));
}

#[test]
fn ntstatus_texts() {
    assert_eq!(ntstatus_result(0, "NtAlpcCreatePort"), Ok(()));
    assert_eq!(ntstatus_result(0x103, "NtAlpcCreatePort"), Ok(()));
    assert_eq!(
        ntstatus_result(0xC0000034u32 as i32, "NtAlpcConnectPort"),
        Err("NtAlpcConnectPort failed with NTSTATUS 0xC0000034".to_string())
    );
    assert_eq!(
        ntstatus_result(-1, "x"),
        Err(format!("x failed with NTSTATUS 0x{:08X}", -1i32))
    );
}

#[test]
fn unicode_string_fields() {
    assert_eq!(unicode_string_lengths(1), Ok((0, 2)));
    assert_eq!(unicode_string_lengths(12), Ok((22, 24)));
    assert_eq!(unicode_string_lengths(32767), Ok((65532, 65534)));
    assert_eq!(
        unicode_string_lengths(32768),
        Err("unicode string too long".to_string())
    );
    assert_eq!(
        unicode_string_lengths(usize::MAX),
        Err("unicode string too long".to_string())
    );
}

#[test]
fn message_capacity_is_whole_words_covering_header_and_payload() {
    let word = std::mem::size_of::<usize>();
    for payload in [0usize, 1, 7, 8, 9, 1000, 32727] {
        let b = MessageBuffer::new(payload, HEADER);
        let cap = b.capacity_bytes();
        assert_eq!(cap % word, 0);
        assert!(cap >= word);
        assert!(HEADER + payload <= cap && cap < HEADER + payload + word);
        assert!(b.payload_capacity(HEADER) >= payload);
    }
}

#[test]
fn child_echoes_full_datagrams_and_stops_on_goodbye() {
    assert_eq!(alpc_child_step(LPC_DATAGRAM, 64, 64), AlpcChildStep::Echo);
    assert_eq!(alpc_child_step(3, 0, 0), AlpcChildStep::Echo);
    assert_eq!(alpc_child_step(LPC_DATAGRAM, 0, 64), AlpcChildStep::Stop);
    assert_eq!(alpc_child_step(LPC_DATAGRAM, 65, 64), AlpcChildStep::Stop);
    assert_eq!(alpc_child_step(LPC_PORT_CLOSED, 64, 64), AlpcChildStep::Stop);
    assert_eq!(alpc_child_step(LPC_CANCELED, 0, 64), AlpcChildStep::Stop);
    assert_eq!(
        alpc_child_step(1, 64, 64),
        AlpcChildStep::Fail { message: "unexpected ALPC message type 1".to_string() }
    );
    assert_eq!(
        alpc_child_step(LPC_CONNECTION_REQUEST, 0, 64),
        AlpcChildStep::Fail { message: "unexpected ALPC message type 10".to_string() }
    );
}

#[test]
fn parent_checks_reply_kind_and_length() {
    assert_eq!(alpc_reply_check(LPC_DATAGRAM, 64, 64), Ok(()));
    assert_eq!(
        alpc_reply_check(LPC_PORT_CLOSED, 64, 64),
        Err("expected ALPC datagram, got 5".to_string())
    );
    assert_eq!(
        alpc_reply_check(LPC_DATAGRAM, 63, 64),
        Err("expected reply length 64, got 63".to_string())
    );
    assert_eq!(
        alpc_reply_check(12, 0, 4096),
        Err("expected ALPC datagram, got 12".to_string())
    );
}

#[test]
fn connection_messages_are_checked() {
    assert_eq!(check_connection_request(LPC_CONNECTION_REQUEST), Ok(()));
    assert_eq!(
        check_connection_request(LPC_DATAGRAM),
        Err("expected ALPC connection request, got 3".to_string())
    );
    assert_eq!(check_connection_reply(LPC_CONNECTION_REPLY), Ok(()));
    assert_eq!(
        check_connection_reply(LPC_CONNECTION_REQUEST),
        Err("expected ALPC connection reply, got 10".to_string())
    );
}

#[test]
fn reply_keys_need_the_continuation_bit() {
    let key = ReplyKey { message_id: 17, callback_id: 99 };
    assert_eq!(reply_key(0x200A, 17, 99), Some(key));
    assert_eq!(reply_key(0x000A, 17, 99), None);
    assert_eq!(connection_reply_key(0x200A, 17, 99), Ok(key));
    assert_eq!(
        connection_reply_key(10, 17, 99),
        Err("connection request missing reply context".to_string())
    );
}
