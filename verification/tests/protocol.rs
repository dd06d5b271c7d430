use ipc_bench::protocol::{
    bump_first_byte, check_ready, classify_udp_datagram, fill_pattern, next_request,
    parse_ready_port, ready_line_with_port, rpc_status, validate_udp_message_size, UdpDatagram,
};

#[test]
fn first_request_pattern() {
    let p = fill_pattern(600);
    assert_eq!(p.len(), 600);
    assert_eq!(p[0], 0);
    assert_eq!(p[250], 250);
    assert_eq!(p[251], 0);
    assert_eq!(p[599], (599 % 251) as u8);
    assert!(fill_pattern(0).is_empty());
}

#[test]
fn child_bumps_first_byte() {
    let mut b = vec![255u8, 4];
    bump_first_byte(&mut b);
    assert_eq!(b, vec![0, 4]);
    let mut e: Vec<u8> = Vec::new();
    bump_first_byte(&mut e);
    assert!(e.is_empty());
}

#[test]
fn round_trip_advances_first_byte_by_two() {
    let request = vec![254u8, 9, 9];
    let mut response = request.clone();
    bump_first_byte(&mut response);
    let mut next = vec![0u8; 3];
    next_request(&mut next, &response);
    assert_eq!(next, vec![0, 9, 9]);
}

#[test]
fn readiness_lines() {
    assert_eq!(check_ready("ready"), Ok(()));
    assert_eq!(
        check_ready("ready "),
        Err("unexpected child readiness message `ready `".to_string())
    );
    assert_eq!(ready_line_with_port(8080), "ready:8080");
    assert_eq!(parse_ready_port("ready:8080"), Ok(8080));
    assert_eq!(parse_ready_port(&ready_line_with_port(65535)), Ok(65535));
    assert_eq!(parse_ready_port(&ready_line_with_port(0)), Ok(0));
    assert_eq!(
        parse_ready_port("ready"),
        Err("unexpected child readiness message `ready`".to_string())
    );
    assert_eq!(
        parse_ready_port("ready:"),
        Err("cannot parse integer from empty string".to_string())
    );
    assert_eq!(
        parse_ready_port("ready:80a"),
        Err("invalid digit found in string".to_string())
    );
    assert_eq!(
        parse_ready_port("ready:65536"),
        Err("number too large to fit in target type".to_string())
    );
}

#[test]
fn udp_limits_and_datagrams() {
    assert_eq!(validate_udp_message_size(65507), Ok(()));
    assert_eq!(
        validate_udp_message_size(65508),
        Err("udp-loopback supports message sizes up to 65507 bytes, got 65508".to_string())
    );
    assert_eq!(classify_udp_datagram(0, 64), UdpDatagram::Ignore);
    assert_eq!(classify_udp_datagram(1, 64), UdpDatagram::Stop);
    assert_eq!(classify_udp_datagram(63, 64), UdpDatagram::Ignore);
    assert_eq!(classify_udp_datagram(64, 64), UdpDatagram::Echo);
}

#[test]
fn rpc_status_texts() {
    assert_eq!(rpc_status(0, "rpc_client_connect"), Ok(()));
    assert_eq!(
        rpc_status(1722, "rpc_client_connect"),
        Err("rpc_client_connect failed with RPC status 1722".to_string())
    );
    assert_eq!(
        rpc_status(-5, "rpc_server_start"),
        Err("rpc_server_start failed with RPC status -5".to_string())
    );
}

#[test]
fn round_trips_advance_first_byte_by_two_each() {
    let mut request = fill_pattern(300);
    let mut response = vec![0u8; 300];
    for k in 1..=300usize {
        response.copy_from_slice(&request);
        bump_first_byte(&mut response);
        next_request(&mut request, &response);
        assert_eq!(request[0] as usize, (2 * k) % 256);
        assert!(request[1..].iter().enumerate().all(|(i, &b)| b == ((i + 1) % 251) as u8));
    }
}
