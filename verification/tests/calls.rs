use tryfol::ipc::protocol::{method_struct_names, protocol_names};
use tryfol::ipc::calls::{
    call_done, call_result, connection_stream_step, is_end_packet, stream_start, stream_step, stream_with_id, CallKind,
    CallTable, StreamStart, StreamStep,
};
use tryfol::ipc::packet::{ClientError, Error, StreamPacket};
use tryfol::ipc::rw::ReadError;

#[test]
fn call_ids_count_up() {
    let mut t = CallTable::new();
    assert_eq!(t.register(CallKind::Single), 0);
    assert_eq!(t.register(CallKind::Stream), 1);
    assert_eq!(t.register(CallKind::Single), 2);
    assert_eq!(t.lookup(1), Some(CallKind::Stream));
    assert_eq!(t.lookup(5), None);
}

#[test]
fn forgotten_calls_are_not_found() {
    let mut t = CallTable::new();
    let a = t.register(CallKind::Single);
    let b = t.register(CallKind::Single);
    t.forget(a);
    assert_eq!(t.lookup(a), None);
    assert_eq!(t.lookup(b), Some(CallKind::Single));
    t.after_packet(b, false);
    assert_eq!(t.lookup(b), Some(CallKind::Single));
    t.after_packet(b, true);
    assert_eq!(t.lookup(b), None);
    assert_eq!(t.register(CallKind::Single), 2);
}

#[test]
fn clear_drops_every_call() {
    let mut t = CallTable::new();
    let a = t.register(CallKind::Single);
    let b = t.register(CallKind::Stream);
    t.clear();
    assert_eq!(t.lookup(a), None);
    assert_eq!(t.lookup(b), None);
    assert_eq!(t.register(CallKind::Single), 2);
}

#[test]
fn end_packets() {
    let v: Result<StreamPacket<u8, u8>, Error> = Ok(StreamPacket::Value(1));
    let e: Result<StreamPacket<u8, u8>, Error> = Ok(StreamPacket::Error(1));
    let end: Result<StreamPacket<u8, u8>, Error> = Ok(StreamPacket::EndOfStream);
    let bad: Result<StreamPacket<u8, u8>, Error> = Err(Error::Read(ReadError::UnexpectedEof));
    assert!(!is_end_packet(&v));
    assert!(is_end_packet(&e));
    assert!(is_end_packet(&end));
    assert!(is_end_packet(&bad));
    assert!(call_done(CallKind::Single, &v, true));
    assert!(!call_done(CallKind::Stream, &v, true));
    assert!(call_done(CallKind::Stream, &v, false));
    assert!(call_done(CallKind::Stream, &end, true));
}

#[test]
fn single_call_result() {
    assert_eq!(call_result::<u8>(None), Err(Error::ConnectionBroken));
    assert_eq!(call_result(Some(Ok(4u8))), Ok(4));
    assert_eq!(call_result::<u8>(Some(Err(Error::Read(ReadError::InvalidUtf8)))), Err(Error::Read(ReadError::InvalidUtf8)));
}

#[test]
fn streamed_call_start() {
    assert_eq!(stream_start::<u8, u8>(None), Err(Error::ConnectionBroken));
    assert_eq!(stream_start::<u8, u8>(Some(Ok(StreamPacket::Value(3)))), Ok(StreamStart::Value(3)));
    assert_eq!(stream_start::<u8, u8>(Some(Ok(StreamPacket::EndOfStream))), Ok(StreamStart::Empty));
    assert_eq!(stream_start::<u8, u8>(Some(Ok(StreamPacket::Error(9)))), Ok(StreamStart::Refused(9)));
    assert_eq!(
        stream_start::<u8, u8>(Some(Err(Error::Read(ReadError::UnexpectedEof)))),
        Err(Error::Read(ReadError::UnexpectedEof))
    );
}

#[test]
fn streamed_call_steps() {
    assert_eq!(stream_step::<u8, u8>(None), StreamStep::Fail(Error::ConnectionBroken));
    assert_eq!(stream_step::<u8, u8>(Some(Ok(StreamPacket::Value(3)))), StreamStep::Yield(3));
    assert_eq!(stream_step::<u8, u8>(Some(Ok(StreamPacket::EndOfStream))), StreamStep::Stop);
    assert_eq!(stream_step::<u8, u8>(Some(Ok(StreamPacket::Error(1)))), StreamStep::Stop);
}

#[test]
fn connection_stream_reports_broken_once() {
    let (sent, item) = connection_stream_step::<u8, u8, String>(false, None);
    assert!(sent);
    assert_eq!(item, Some(Err(ClientError::Connection)));
    let (sent, item) = connection_stream_step::<u8, u8, String>(true, None);
    assert!(sent);
    assert_eq!(item, None);
    assert_eq!(connection_stream_step::<u8, u8, String>(false, Some(Ok(Some(5)))), (false, Some(Ok(5))));
    assert_eq!(connection_stream_step::<u8, u8, String>(false, Some(Ok(None))), (false, None));
    assert_eq!(
        connection_stream_step::<u8, u8, String>(false, Some(Err(ClientError::Type(1)))),
        (false, Some(Err(ClientError::Type(1))))
    );
}

#[test]
fn server_stream_packets() {
    let packets = stream_with_id::<u8, u8>(7, vec![1, 2]);
    assert_eq!(
        packets,
        vec![(7, StreamPacket::Value(1)), (7, StreamPacket::Value(2)), (7, StreamPacket::EndOfStream)]
    );
    let empty = stream_with_id::<u8, u8>(1, vec![]);
    assert_eq!(empty, vec![(1, StreamPacket::EndOfStream)]);
}

#[test]
fn protocol_item_names() {
    let names = protocol_names("Daemon", None, Some("Backend"));
    assert_eq!(names.client, "DaemonClient");
    assert_eq!(names.server, "Backend");
    assert_eq!(names.module, "__Daemon_inner");
    assert_eq!(method_struct_names("ping"), ("pingCall".to_string(), "pingResponse".to_string()));
}

#[test]
fn many_call_ids_are_distinct() {
    let mut table = CallTable::new();
    let mut seen = std::collections::HashSet::new();
    for _ in 0..1000 {
        assert!(seen.insert(table.register(CallKind::Stream)));
    }
    assert_eq!(seen.len(), 1000);
}
