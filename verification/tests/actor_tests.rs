use vice::actor::apply_read_some;
use vice::errors::ViceError;
use vice::actor::write_wire_bytes;
use vice::actor::OpQueue;
use vice::actor::Operation;
use vice::actor::ReadExactOutcome;
use vice::actor::ReadExactState;

#[test]
fn queue_serves_in_arrival_order() {
    let mut q = OpQueue::new(2);
    assert!(q.try_enqueue(Operation::ReadSome { buffer: vec![1u8] }).is_ok());
    assert!(q.try_enqueue(Operation::ReadExact { len: 4, buffer: vec![2u8] }).is_ok());
    match q.dequeue() {
        Some(Operation::ReadSome { buffer }) => assert_eq!(buffer, vec![1u8]),
        _ => panic!("first arrival must be served first"),
    }
    match q.dequeue() {
        Some(Operation::ReadExact { len, buffer }) => {
            assert_eq!(len, 4);
            assert_eq!(buffer, vec![2u8]);
        },
        _ => panic!("second arrival must be served second"),
    }
    assert!(q.dequeue().is_none());
}

#[test]
fn full_queue_rejects_and_returns_the_operation() {
    let mut q = OpQueue::new(2);
    assert!(q.try_enqueue(Operation::ReadSome { buffer: vec![] }).is_ok());
    assert!(q.try_enqueue(Operation::ReadSome { buffer: vec![] }).is_ok());
    match q.try_enqueue(Operation::ReadSome { buffer: vec![7u8, 8u8] }) {
        Err(Operation::ReadSome { buffer }) => assert_eq!(buffer, vec![7u8, 8u8]),
        _ => panic!("a full queue must hand the operation back"),
    }
    assert_eq!(q.len(), 2);
}

#[test]
fn closed_queue_rejects_synchronously() {
    let mut q = OpQueue::new(2);
    q.close();
    match q.try_enqueue(Operation::WriteAll { header: vec![1u8], body: vec![2u8] }) {
        Err(Operation::WriteAll { header, body }) => {
            assert_eq!(header, vec![1u8]);
            assert_eq!(body, vec![2u8]);
        },
        _ => panic!("a closed queue must reject at once"),
    }
    assert_eq!(q.len(), 0);
}

#[test]
fn read_appends_and_keeps_prefix() {
    let (count, buffer) = apply_read_some(vec![10u8, 11u8], &vec![12u8, 13u8, 14u8]);
    assert_eq!(count, 3);
    assert_eq!(buffer, vec![10u8, 11u8, 12u8, 13u8, 14u8]);
}

#[test]
fn read_of_nothing_reports_zero_and_keeps_buffer() {
    let (count, buffer) = apply_read_some(vec![10u8, 11u8], &vec![]);
    assert_eq!(count, 0);
    assert_eq!(buffer, vec![10u8, 11u8]);
}

#[test]
fn read_exact_collects_exactly_the_target() {
    let mut state = ReadExactState::new(5);
    for b in [b'h', b'e', b'l', b'l'] {
        match state.feed(&vec![b]) {
            ReadExactOutcome::More(next) => state = next,
            _ => panic!("four bytes of five must ask for more"),
        }
    }
    match state.feed(&vec![b'o']) {
        ReadExactOutcome::Done(buffer) => assert_eq!(buffer, b"hello".to_vec()),
        _ => panic!("the fifth byte completes the read"),
    }
}

#[test]
fn read_exact_fails_when_transport_closes_short() {
    let state = ReadExactState::new(3);
    let state = match state.feed(&vec![1u8]) {
        ReadExactOutcome::More(next) => next,
        _ => panic!("one byte of three must ask for more"),
    };
    match state.feed(&vec![]) {
        ReadExactOutcome::Failed(e) => assert_eq!(e, ViceError::TransportIo),
        _ => panic!("a close before the target must fail, never succeed short"),
    }
}

#[test]
fn write_transmits_header_then_body_exactly() {
    assert_eq!(
        write_wire_bytes(&b"HEAD".to_vec(), &b"body".to_vec()),
        b"HEADbody".to_vec()
    );
    assert_eq!(write_wire_bytes(&vec![], &b"x".to_vec()), b"x".to_vec());
    assert_eq!(write_wire_bytes(&b"x".to_vec(), &vec![]), b"x".to_vec());
    assert_eq!(write_wire_bytes(&vec![], &vec![]), Vec::<u8>::new());
}

#[test]
fn error_descriptions_name_the_failure() {
    assert_eq!(ViceError::TransportIo.describe(), "transport i/o failure");
    assert_eq!(ViceError::ActorUnavailable.describe(), "transport actor unavailable");
    assert_eq!(ViceError::Framing.describe(), "malformed request head");
    assert_eq!(
        ViceError::IncompleteBody.describe(),
        "connection closed before the declared body length"
    );
}
