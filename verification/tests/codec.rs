use convis::event::{encode_addr, Call, DecodeError, Event, Exec, Sock, SockAddr};

fn header(kind: u32, pid: u32) -> Vec<u8> {
    let mut b = Vec::new();
    b.extend_from_slice(&kind.to_le_bytes());
    b.extend_from_slice(&pid.to_le_bytes());
    b
}

fn sock_body(saddr: [u8; 4], sport: u32, daddr: [u8; 4], dport: u32) -> Vec<u8> {
    let mut b = Vec::new();
    b.extend_from_slice(&1u32.to_le_bytes());
    b.extend_from_slice(&saddr);
    b.extend_from_slice(&sport.to_le_bytes());
    b.extend_from_slice(&daddr);
    b.extend_from_slice(&dport.to_le_bytes());
    b
}

#[test]
fn exec_header_decodes_and_preserves_pid() {
    let b = header(0, 42);
    assert_eq!(Event::read(&b), Ok(Event::Exec(Exec::Exec(42))));
    let b = header(1, 31337);
    assert_eq!(Event::read(&b), Ok(Event::Exec(Exec::Exit(31337))));
    let b = header(0, i32::MAX as u32);
    assert_eq!(Event::read(&b), Ok(Event::Exec(Exec::Exec(i32::MAX))));
}

#[test]
fn header_pid_out_of_range_is_rejected() {
    let b = header(0, 0x8000_0000);
    assert_eq!(Event::read(&b), Err(DecodeError::BadHeader));
}

#[test]
fn unknown_kind_is_rejected() {
    let mut b = header(7, 42);
    assert_eq!(Event::read(&b), Err(DecodeError::BadHeader));
    b = header(5, 1);
    assert_eq!(Event::read(&b), Err(DecodeError::BadHeader));
    b = header(u32::MAX, 1);
    assert_eq!(Event::read(&b), Err(DecodeError::BadHeader));
}

#[test]
fn short_buffers_are_rejected() {
    assert_eq!(Event::read(&[]), Err(DecodeError::BadHeader));
    assert_eq!(Event::read(&[0, 0, 0]), Err(DecodeError::BadHeader));
    // A socket kind whose payload is shorter than the fixed part.
    let mut b = header(2, 1);
    b.extend_from_slice(&[0u8; 12]);
    assert_eq!(Event::read(&b), Err(DecodeError::BadSock));
}

#[test]
fn port_out_of_range_is_rejected() {
    let mut b = header(2, 1);
    b.extend(sock_body([10, 0, 0, 1], 70000, [10, 0, 0, 2], 80));
    assert_eq!(Event::read(&b), Err(DecodeError::BadSock));
    let mut b = header(2, 1);
    b.extend(sock_body([10, 0, 0, 1], 5000, [10, 0, 0, 2], 65536));
    assert_eq!(Event::read(&b), Err(DecodeError::BadSock));
}

#[test]
fn connect_decodes_with_swapped_addresses() {
    let mut b = header(2, 42);
    b.extend(sock_body([10, 0, 0, 1], 5000, [10, 0, 0, 2], 80));
    let ev = Event::read(&b).unwrap();
    assert_eq!(
        ev,
        Event::Sock(Sock {
            call: Call::Connect,
            pid: 42,
            src: SockAddr { addr: 0x0A00_0001, port: 5000 },
            dst: SockAddr { addr: 0x0A00_0002, port: 80 },
            rx: 0,
            tx: 0,
            srtt: 0,
            retx: 0,
        })
    );
}

#[test]
fn accept_and_close_map_their_kinds() {
    let mut b = header(3, 9);
    b.extend(sock_body([0, 0, 0, 0], 0, [1, 2, 3, 4], 22));
    match Event::read(&b).unwrap() {
        Event::Sock(s) => {
            assert_eq!(s.call, Call::Accept);
            assert_eq!(s.call.label(), "Accept");
            assert_eq!(s.dst, SockAddr { addr: 0x0102_0304, port: 22 });
        }
        other => panic!("expected a socket event, got {:?}", other),
    }
    let mut b = header(4, 9);
    b.extend(sock_body([0, 0, 0, 0], 0, [1, 2, 3, 4], 22));
    match Event::read(&b).unwrap() {
        Event::Sock(s) => {
            assert_eq!(s.call, Call::Close);
            assert_eq!(s.call.label(), "Close");
        }
        other => panic!("expected a socket event, got {:?}", other),
    }
}

#[test]
fn full_tail_decodes_counters() {
    let mut b = header(3, 99);
    b.extend(sock_body([0, 0, 0, 0], 0, [1, 2, 3, 4], 22));
    b.extend_from_slice(&100u32.to_le_bytes());
    b.extend_from_slice(&200u32.to_le_bytes());
    b.extend_from_slice(&3000u32.to_le_bytes());
    b.extend_from_slice(&1u32.to_le_bytes());
    match Event::read(&b).unwrap() {
        Event::Sock(s) => {
            assert_eq!((s.rx, s.tx, s.srtt, s.retx), (100, 200, 3000, 1));
        }
        other => panic!("expected a socket event, got {:?}", other),
    }
}

#[test]
fn partial_tail_zeroes_counters() {
    for extra in [1usize, 5, 15, 17, 20] {
        let mut b = header(2, 7);
        b.extend(sock_body([10, 0, 0, 1], 5000, [10, 0, 0, 2], 80));
        b.extend(std::iter::repeat(0xAAu8).take(extra));
        match Event::read(&b).unwrap() {
            Event::Sock(s) => {
                assert_eq!((s.rx, s.tx, s.srtt, s.retx), (0, 0, 0, 0), "tail of {}", extra);
            }
            other => panic!("expected a socket event, got {:?}", other),
        }
    }
}

#[test]
fn addresses_round_trip_to_wire_bytes() {
    let mut b = header(2, 42);
    b.extend(sock_body([10, 0, 0, 1], 5000, [192, 168, 1, 7], 443));
    match Event::read(&b).unwrap() {
        Event::Sock(s) => {
            assert_eq!(encode_addr(&s.src), &b[12..20]);
            assert_eq!(encode_addr(&s.dst), &b[20..28]);
        }
        other => panic!("expected a socket event, got {:?}", other),
    }
}
