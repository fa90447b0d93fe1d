use vice::errors::ViceError;
use vice::framing::FramingMachine;
use vice::framing::FramingStep;
use vice::parser::parse_decimal;
use vice::parser::parse_request;
use vice::parser::ParseStatus;

fn feed(machine: &mut FramingMachine, bytes: &[u8]) {
    machine.feed(&bytes.to_vec());
}

#[test]
fn head_across_partial_reads_completes_once_parseable() {
    let mut m = FramingMachine::new();
    feed(&mut m, b"GET / HTTP/1.1\r\nHost: x\r\n");
    match m.advance() {
        FramingStep::NeedRead => {},
        _ => panic!("an incomplete head must demand exactly one more read"),
    }
    feed(&mut m, b"\r\n");
    match m.advance() {
        FramingStep::Complete(head, body) => {
            assert_eq!(head.method, b"GET".to_vec());
            assert_eq!(head.path, b"/".to_vec());
            assert_eq!(head.minor_version, 1);
            assert_eq!(head.headers.len(), 1);
            assert_eq!(head.headers[0].name, b"Host".to_vec());
            assert_eq!(head.headers[0].value, b"x".to_vec());
            assert_eq!(head.body_offset, 27);
            assert!(body.is_empty());
        },
        _ => panic!("the head is complete as soon as the empty line arrives"),
    }
}

#[test]
fn body_collected_in_single_byte_reads_is_exactly_declared() {
    let mut m = FramingMachine::new();
    feed(&mut m, b"POST /u HTTP/1.1\r\nContent-Length: 5\r\n\r\n");
    for b in *b"hello" {
        match m.advance() {
            FramingStep::NeedRead => {},
            _ => panic!("an outstanding body byte must demand another read"),
        }
        feed(&mut m, &[b]);
    }
    match m.advance() {
        FramingStep::Complete(head, body) => {
            assert_eq!(head.method, b"POST".to_vec());
            assert_eq!(body, b"hello".to_vec());
        },
        _ => panic!("five collected bytes satisfy the declared length"),
    }
}

#[test]
fn body_is_never_more_than_declared() {
    let mut m = FramingMachine::new();
    feed(&mut m, b"POST / HTTP/1.1\r\nContent-Length: 3\r\n\r\nabcdef");
    match m.advance() {
        FramingStep::Complete(_, body) => assert_eq!(body, b"abc".to_vec()),
        _ => panic!("a satisfied body completes at once"),
    }
}

#[test]
fn header_only_request_completes_with_no_extra_read() {
    let mut m = FramingMachine::new();
    feed(&mut m, b"GET /index HTTP/1.1\r\n\r\n");
    match m.advance() {
        FramingStep::Complete(head, body) => {
            assert_eq!(head.path, b"/index".to_vec());
            assert_eq!(head.headers.len(), 0);
            assert!(body.is_empty());
        },
        _ => panic!("no declared length means the head alone is the request"),
    }
}

#[test]
fn malformed_head_fails_framing() {
    let mut m = FramingMachine::new();
    feed(&mut m, b"NONSENSE\r\n\r\n");
    match m.advance() {
        FramingStep::Failed(e) => assert_eq!(e, ViceError::Framing),
        _ => panic!("a head without a request line must be rejected"),
    }
}

#[test]
fn too_many_headers_fail_framing() {
    let mut bytes = b"GET / HTTP/1.1\r\n".to_vec();
    for i in 0..25 {
        bytes.extend_from_slice(format!("h{i}: v\r\n").as_bytes());
    }
    bytes.extend_from_slice(b"\r\n");
    let mut m = FramingMachine::new();
    m.feed(&bytes);
    match m.advance() {
        FramingStep::Failed(e) => assert_eq!(e, ViceError::Framing),
        _ => panic!("a 25th header passes the fixed maximum"),
    }
}

#[test]
fn exactly_the_maximum_header_count_is_accepted() {
    let mut bytes = b"GET / HTTP/1.1\r\n".to_vec();
    for i in 0..24 {
        bytes.extend_from_slice(format!("h{i}: v\r\n").as_bytes());
    }
    bytes.extend_from_slice(b"\r\n");
    let mut m = FramingMachine::new();
    m.feed(&bytes);
    match m.advance() {
        FramingStep::Complete(head, _) => assert_eq!(head.headers.len(), 24),
        _ => panic!("the bounded header list holds its full capacity"),
    }
}

#[test]
fn close_during_head_is_a_transport_failure() {
    let mut m = FramingMachine::new();
    feed(&mut m, b"GET / HTTP/1.1\r\nHos");
    match m.on_close() {
        FramingStep::Failed(e) => assert_eq!(e, ViceError::TransportIo),
        _ => panic!("a close mid-head aborts the request"),
    }
}

#[test]
fn close_during_body_is_an_incomplete_body() {
    let mut m = FramingMachine::new();
    feed(&mut m, b"POST / HTTP/1.1\r\nContent-Length: 9\r\n\r\nabc");
    match m.on_close() {
        FramingStep::Failed(e) => assert_eq!(e, ViceError::IncompleteBody),
        _ => panic!("a close before the declared length is an incomplete body"),
    }
}

#[test]
fn content_length_name_is_case_insensitive() {
    let mut m = FramingMachine::new();
    feed(&mut m, b"POST / HTTP/1.1\r\ncOnTeNt-LeNgTh: 2\r\n\r\nok");
    match m.advance() {
        FramingStep::Complete(_, body) => assert_eq!(body, b"ok".to_vec()),
        _ => panic!("the header name matches in any case"),
    }
}

#[test]
fn unparsable_content_length_means_no_body() {
    let mut m = FramingMachine::new();
    feed(&mut m, b"POST / HTTP/1.1\r\nContent-Length: many\r\n\r\n");
    match m.advance() {
        FramingStep::Complete(_, body) => assert!(body.is_empty()),
        _ => panic!("a non-numeric declared length counts as none"),
    }
}

#[test]
fn header_values_are_trimmed() {
    let mut m = FramingMachine::new();
    feed(&mut m, b"GET / HTTP/1.1\r\nHost: \t spaced.example \t\r\n\r\n");
    match m.advance() {
        FramingStep::Complete(head, _) => {
            assert_eq!(head.headers[0].value, b"spaced.example".to_vec());
        },
        _ => panic!("surrounding blanks do not belong to the value"),
    }
}

#[test]
fn parse_reports_partial_until_the_empty_line() {
    assert!(matches!(parse_request(&b"GET / HTTP/1.1\r\nHost: x".to_vec()), ParseStatus::Partial));
    assert!(matches!(
        parse_request(&b"GET / HTTP/1.1\r\nHost: x\r\n".to_vec()),
        ParseStatus::Partial
    ));
    assert!(matches!(parse_request(&Vec::new()), ParseStatus::Partial));
}

#[test]
fn parse_rejects_bad_request_lines() {
    assert!(matches!(parse_request(&b" GET / HTTP/1.1\r\n\r\n".to_vec()), ParseStatus::Malformed));
    assert!(matches!(parse_request(&b"GET  HTTP/1.1\r\n\r\n".to_vec()), ParseStatus::Malformed));
    assert!(matches!(parse_request(&b"GET / HTTP/2.0\r\n\r\n".to_vec()), ParseStatus::Malformed));
    assert!(matches!(
        parse_request(&b"GET / HTTP/1.1\r\nNoColonHere\r\n\r\n".to_vec()),
        ParseStatus::Malformed
    ));
    assert!(matches!(
        parse_request(&b"GET / HTTP/1.1\r\n: empty-name\r\n\r\n".to_vec()),
        ParseStatus::Malformed
    ));
}

#[test]
fn parse_accepts_the_earlier_protocol_minor() {
    match parse_request(&b"GET / HTTP/1.0\r\n\r\n".to_vec()) {
        ParseStatus::Complete(head) => assert_eq!(head.minor_version, 0),
        _ => panic!("HTTP/1.0 heads are within the grammar"),
    }
}

#[test]
fn decimal_parsing_is_exact() {
    assert_eq!(parse_decimal(&b"0".to_vec()), Some(0));
    assert_eq!(parse_decimal(&b"123".to_vec()), Some(123));
    assert_eq!(parse_decimal(&b"007".to_vec()), Some(7));
    assert_eq!(parse_decimal(&Vec::new()), None);
    assert_eq!(parse_decimal(&b"12a".to_vec()), None);
    assert_eq!(parse_decimal(&b"-1".to_vec()), None);
    assert_eq!(parse_decimal(&b"99999999999999999999999999".to_vec()), None);
}
