use tryfol::rfkill::{events_from_bytes, Event, Operation, Type};

#[test]
fn record_from_bytes() {
    let e = Event::from_bytes(&[1, 2, 0, 0, 1, 2, 1, 0]).unwrap();
    assert_eq!(e.index, 0x0201);
    assert_eq!(e.kind, Type::Wlan);
    assert_eq!(e.operation, Operation::Change);
    assert!(e.soft);
    assert!(!e.hard);
}

#[test]
fn invalid_records() {
    assert_eq!(Event::from_bytes(&[0, 0, 0, 0, 10, 0, 0, 0]), None);
    assert_eq!(Event::from_bytes(&[0, 0, 0, 0, 0, 5, 0, 0]), None);
    assert_eq!(Event::from_bytes(&[0, 0, 0, 0, 0, 0, 2, 0]), None);
    assert_eq!(Event::from_bytes(&[0, 0, 0, 0, 0, 0, 0]), None);
}

#[test]
fn record_round_trip() {
    let e = Event { index: 0xdead_beef, kind: Type::Bluetooth, operation: Operation::Add, soft: false, hard: true };
    let bytes = e.to_bytes();
    assert_eq!(bytes, vec![0xef, 0xbe, 0xad, 0xde, 2, 0, 0, 1]);
    assert_eq!(Event::from_bytes(&bytes), Some(e));
}

#[test]
fn type_numbers() {
    assert_eq!(Type::from_u8(0), Some(Type::All));
    assert_eq!(Type::from_u8(8), Some(Type::Nfc));
    assert_eq!(Type::from_u8(9), Some(Type::ThisShouldNotBeHere));
    assert_eq!(Type::from_u8(10), None);
    assert_eq!(Type::Gps.to_u8(), 6);
    assert_eq!(Operation::ChangeAll.to_u8(), 3);
    assert_eq!(Operation::from_u8(4), Some(Operation::ThisShouldNotBeHere));
    assert_eq!(Type::default(), Type::ThisShouldNotBeHere);
    assert_eq!(Event::default().index, 0);
}

#[test]
fn records_of_a_read() {
    let mut data = Event { index: 1, kind: Type::Wlan, operation: Operation::Add, soft: false, hard: false }.to_bytes();
    data.extend(Event { index: 2, kind: Type::Bluetooth, operation: Operation::Add, soft: true, hard: false }.to_bytes());
    data.extend([1, 2, 3]);
    let events = events_from_bytes(&data);
    assert_eq!(events.len(), 2);
    assert_eq!(events[1].index, 2);
    assert!(events[1].soft);
    let mut bad = data.clone();
    bad[4] = 77;
    assert!(events_from_bytes(&bad).is_empty());
}
