use std::io;

use framed_server::client_handler::{
    new_connection_message, new_connection_task, ClientHandler, LoopAction, MAX_CONNECTIONS,
};
use framed_server::event_loop_message::EventLoopMessage;
use framed_server::socket::{
    encoded_buffer, read_finished_message, write_finished_message, DecodeStep, Error,
    PendingWrite, ReadEvent, ReadStep, Socket, SocketReader, WriteError,
};
use framed_server::{AsyncReader, Connection, ConnectionEndedReason, EventSet, Handler, Server};

struct Sink;

impl mio::Handler for Sink {
    type Timeout = ();
    type Message = EventLoopMessage;
}

fn channel() -> (mio::EventLoop<Sink>, mio::Sender<EventLoopMessage>) {
    let event_loop: mio::EventLoop<Sink> = mio::EventLoop::new().unwrap();
    let sender = event_loop.channel();
    (event_loop, sender)
}

/// A stand-in for a socket's stream: the library only carries it.
#[derive(Debug, PartialEq)]
struct FakeStream(u32);

#[derive(Clone)]
struct LineHandler {
    fail_frames: bool,
}

impl Handler for LineHandler {
    type Frame = String;
    type InvalidFrame = ();
    type Error = ();

    fn new_connection(&self, _conn: Connection<Self>) -> Result<(), ()> {
        if self.fail_frames { Err(()) } else { Ok(()) }
    }

    fn connection_ended(&self, _id: usize, _reason: ConnectionEndedReason) {}

    fn decode_frame<'a>(&self, reader: AsyncReader<'a>) -> (Result<Result<String, ()>, Error>, AsyncReader<'a>) {
        let mut reader = reader;
        let mut output = Vec::new();
        let result = match reader.read_until(b'\n', &mut output) {
            Ok(_) => Ok(Ok(String::from_utf8_lossy(&output).into_owned())),
            Err(e) => Err(e),
        };
        (result, reader)
    }

    fn encode_frame(&self, frame: String) -> Result<Vec<u8>, io::Error> {
        Ok(frame.into_bytes())
    }

    fn on_frame(&self, frame: String, conn: &Connection<Self>) -> Result<(), ()> {
        if self.fail_frames {
            return Err(());
        }
        conn.send(frame);
        Ok(())
    }
}

#[test]
fn pending_write_counts_bytes() {
    let mut p = PendingWrite::new(1, b"abcd".to_vec());
    assert!(!p.is_done());
    assert_eq!(p.chunk(), &b"bcd"[..]);
    p.advance(2);
    assert_eq!(p.total_written(), 3);
    assert!(!p.is_done());
    assert_eq!(p.chunk(), &b"d"[..]);
    match p.into_would_block() {
        WriteError::WouldBlock(n, b) => {
            assert_eq!(n, 3);
            assert_eq!(b, b"abcd".to_vec());
        }
        _ => panic!("expected WouldBlock"),
    }
    let mut q = PendingWrite::new(0, b"ab".to_vec());
    q.advance(2);
    assert!(q.is_done());
}

#[test]
fn pending_write_sorts_errors() {
    let p = PendingWrite::new(0, b"xy".to_vec());
    let e = p.on_write_error(io::Error::new(io::ErrorKind::WouldBlock, "later"));
    assert!(matches!(e, WriteError::WouldBlock(0, _)));
    let q = PendingWrite::new(0, b"xy".to_vec());
    let e = q.on_write_error(io::Error::new(io::ErrorKind::BrokenPipe, "gone"));
    match e {
        WriteError::IoError(err) => assert_eq!(err.kind(), io::ErrorKind::BrokenPipe),
        _ => panic!("expected IoError"),
    }
}

#[test]
fn write_error_from_io_error() {
    let e: WriteError = io::Error::new(io::ErrorKind::Other, "x").into();
    assert!(matches!(e, WriteError::IoError(_)));
}

#[test]
fn messages_after_work() {
    assert!(write_finished_message(4, Ok(())).is_none());
    match write_finished_message(4, Err(WriteError::WouldBlock(2, b"abc".to_vec()))) {
        Some(EventLoopMessage::ContinueWrite(4, 2, b)) => assert_eq!(b, b"abc".to_vec()),
        _ => panic!("expected ContinueWrite"),
    }
    let io_err = io::Error::new(io::ErrorKind::Other, "x");
    assert!(matches!(
        write_finished_message(4, Err(WriteError::IoError(io_err))),
        Some(EventLoopMessage::Close(4, ConnectionEndedReason::IoError(_)))
    ));
    match read_finished_message(7, ReadStep::Done, SocketReader::new(b"xy".to_vec())) {
        EventLoopMessage::Read(7, b) => assert_eq!(b, b"xy".to_vec()),
        _ => panic!("expected Read"),
    }
    assert!(matches!(
        read_finished_message(7, ReadStep::Close(ConnectionEndedReason::Hangup), SocketReader::new(Vec::new())),
        EventLoopMessage::Close(7, ConnectionEndedReason::Hangup)
    ));
    assert!(matches!(new_connection_message::<()>(3, Ok(())), EventLoopMessage::Read(3, b) if b.is_empty()));
    assert!(matches!(
        new_connection_message(3, Err(())),
        EventLoopMessage::Close(3, ConnectionEndedReason::HandlerError)
    ));
    match encoded_buffer(Ok(b"hi".to_vec())) {
        Ok(Some((0, b))) => assert_eq!(b, b"hi".to_vec()),
        _ => panic!("expected the buffer"),
    }
    assert!(matches!(
        encoded_buffer(Err(io::Error::new(io::ErrorKind::Other, "x"))),
        Err(WriteError::IoError(_))
    ));
}

#[test]
fn socket_readiness_registers_on_change_only() {
    let mut socket: Socket<String, FakeStream> = Socket::new(FakeStream(0), 5);
    assert_eq!(socket.get_id(), 5);
    assert_eq!(
        socket.get_event_set(),
        EventSet { readable: false, writable: false, error: true, hup: true }
    );
    let reg = socket.set_read_readiness(true).unwrap();
    assert_eq!(reg.token, 5);
    assert!(reg.first);
    assert_eq!(reg.events, EventSet { readable: true, writable: false, error: true, hup: true });
    assert!(socket.set_read_readiness(true).is_none());
    let reg = socket.set_write_readiness(true).unwrap();
    assert!(!reg.first);
    assert_eq!(reg.events, EventSet { readable: true, writable: true, error: true, hup: true });
    let reg = socket.set_readiness(Some(false), Some(false)).unwrap();
    assert_eq!(reg.events, EventSet { readable: false, writable: false, error: true, hup: true });
    assert!(socket.set_readiness(None, None).is_none());
}

#[test]
fn socket_shutdown_starts_once() {
    let mut socket: Socket<String, FakeStream> = Socket::new(FakeStream(0), 2);
    let first = socket.start_shutdown(ConnectionEndedReason::Hangup).unwrap();
    assert_eq!(first.token, 2);
    assert!(!first.deregister);
    assert!(matches!(first.message, EventLoopMessage::EndShutdown(2, ConnectionEndedReason::Hangup)));
    assert!(socket.start_shutdown(ConnectionEndedReason::Hangup).is_none());

    let mut registered: Socket<String, FakeStream> = Socket::new(FakeStream(0), 3);
    registered.set_read_readiness(true);
    assert!(registered.start_shutdown(ConnectionEndedReason::Hangup).unwrap().deregister);
}

#[test]
fn writer_finishes_pending_buffer_then_frames() {
    let (_event_loop, sender) = channel();
    let handler = LineHandler { fail_frames: false };
    let mut socket: Socket<String, FakeStream> = Socket::new(FakeStream(0), 1);
    let reg = socket.continue_writing(2, b"abcd".to_vec()).unwrap();
    assert!(reg.events.writable);
    let conn: Connection<LineHandler> = Connection::new(sender, 1, socket.get_write_buf());
    assert_eq!(conn.get_id(), 1);
    conn.clone().send("frame\n".to_string());
    let mut writer = socket.get_socket_writer();
    match writer.get_buf_to_write(&handler) {
        Ok(Some((2, b))) => assert_eq!(b, b"abcd".to_vec()),
        _ => panic!("expected the pending buffer"),
    }
    match writer.get_buf_to_write(&handler) {
        Ok(Some((0, b))) => assert_eq!(b, b"frame\n".to_vec()),
        _ => panic!("expected the queued frame"),
    }
    assert!(matches!(writer.get_buf_to_write(&handler), Ok(None)));
    let mut again = socket.get_socket_writer();
    assert!(matches!(again.get_buf_to_write(&handler), Ok(None)));
    assert!(matches!(conn.write_notice(), EventLoopMessage::Write(1)));
}

/// Runs one reader job as the event loop's pool does: reads until no data,
/// then gives the message for the loop.
fn run_reader(
    handler: &LineHandler,
    reader: SocketReader,
    conn: Connection<LineHandler>,
    token: usize,
    chunks: Vec<&[u8]>,
) -> EventLoopMessage<FakeStream> {
    let mut reader = reader;
    for chunk in chunks {
        assert!(matches!(reader.read(handler, &conn, ReadEvent::Data(chunk.to_vec())), ReadStep::Continue));
    }
    let step = reader.read(handler, &conn, ReadEvent::NoData);
    assert!(matches!(step, ReadStep::Done));
    match read_finished_message(token, step, reader) {
        EventLoopMessage::Read(t, b) => EventLoopMessage::Read(t, b),
        _ => panic!("expected Read"),
    }
}

fn take_reader(actions: Vec<LoopAction<LineHandler>>) -> (SocketReader, Connection<LineHandler>) {
    for action in actions {
        if let LoopAction::Read { reader, conn, .. } = action {
            return (reader, conn);
        }
    }
    panic!("expected a Read action")
}

#[test]
fn incomplete_frame_is_kept_across_readers_and_echoed() {
    let (_event_loop, sender) = channel();
    let handler = LineHandler { fail_frames: false };
    let mut state: ClientHandler<LineHandler, FakeStream> = ClientHandler::new(handler.clone());
    let actions = state.notify(EventLoopMessage::NewConnection(FakeStream(1)), &sender);
    let token = match &actions[..] {
        [LoopAction::NewConnection { conn, .. }] => conn.get_id(),
        _ => panic!("expected NewConnection"),
    };
    state.notify(EventLoopMessage::Read(token, Vec::new()), &sender);

    let (reader, conn) = take_reader(state.ready(token, EventSet::readable(), &sender));
    let msg = run_reader(&handler, reader, conn, token, vec![b"test"]);
    assert!(matches!(&msg, EventLoopMessage::Read(t, b) if *t == token && b == b"test"));
    state.notify(msg, &sender);

    let (reader, conn) = take_reader(state.ready(token, EventSet::readable(), &sender));
    let msg = run_reader(&handler, reader, conn, token, vec![b"\nabcd"]);
    assert!(matches!(&msg, EventLoopMessage::Read(_, b) if b == b"abcd"));

    let actions = state.ready(token, EventSet::writable(), &sender);
    let mut writer = None;
    for action in actions {
        if let LoopAction::Write { writer: w, .. } = action {
            writer = Some(w);
        }
    }
    let mut writer = writer.expect("expected a Write action");
    match writer.get_buf_to_write(&handler) {
        Ok(Some((0, b))) => assert_eq!(b, b"test\n".to_vec()),
        _ => panic!("expected the echoed frame"),
    }
    assert!(matches!(writer.get_buf_to_write(&handler), Ok(None)));
}

#[test]
fn every_complete_frame_of_a_read_is_handled_in_order() {
    let (_event_loop, sender) = channel();
    let handler = LineHandler { fail_frames: false };
    let mut socket: Socket<String, FakeStream> = Socket::new(FakeStream(0), 0);
    let conn: Connection<LineHandler> = Connection::new(sender, 0, socket.get_write_buf());
    let mut reader = socket.get_socket_reader();
    assert!(matches!(reader.read(&handler, &conn, ReadEvent::Data(b"a\nbb\nc".to_vec())), ReadStep::Continue));
    let err = io::Error::new(io::ErrorKind::Other, "x");
    assert!(matches!(reader.read(&handler, &conn, ReadEvent::Failed(err)), ReadStep::Continue));
    assert_eq!(reader.into_buffer(), b"c".to_vec());
    let mut writer = socket.get_socket_writer();
    for expected in [&b"a\n"[..], &b"bb\n"[..]] {
        match writer.get_buf_to_write(&handler) {
            Ok(Some((0, b))) => assert_eq!(b, expected.to_vec()),
            _ => panic!("expected a frame"),
        }
    }
    assert!(matches!(writer.get_buf_to_write(&handler), Ok(None)));
}

#[test]
fn reader_closes_when_on_frame_fails() {
    let (_event_loop, sender) = channel();
    let handler = LineHandler { fail_frames: true };
    let mut socket: Socket<String, FakeStream> = Socket::new(FakeStream(0), 0);
    let conn: Connection<LineHandler> = Connection::new(sender, 0, socket.get_write_buf());
    let mut reader = socket.get_socket_reader();
    assert!(matches!(
        reader.read(&handler, &conn, ReadEvent::Data(b"x\n".to_vec())),
        ReadStep::Close(ConnectionEndedReason::HandlerError)
    ));
}

#[test]
fn finish_decode_cases() {
    let mut socket: Socket<String, FakeStream> = Socket::new(FakeStream(0), 0);
    let mut reader = socket.get_socket_reader();
    let (_event_loop, sender) = channel();
    let handler = LineHandler { fail_frames: true };
    let conn: Connection<LineHandler> = Connection::new(sender, 0, socket.get_write_buf());
    assert!(matches!(reader.read(&handler, &conn, ReadEvent::Data(b"abc".to_vec())), ReadStep::Continue));
    let d: DecodeStep<u8> = reader.finish_decode(Err::<Result<u8, ()>, Error>(Error::WouldBlock), 2);
    assert!(matches!(d, DecodeStep::Incomplete));
    let d: DecodeStep<u8> = reader.finish_decode(Ok::<Result<u8, ()>, Error>(Err(())), 1);
    assert!(matches!(d, DecodeStep::Skipped));
    let d = reader.finish_decode(Ok::<Result<u8, ()>, Error>(Ok(7)), 1);
    assert!(matches!(d, DecodeStep::Frame(7)));
    let d: DecodeStep<u8> = reader.finish_decode(Err::<Result<u8, ()>, Error>(Error::ReadShutdown), 0);
    assert!(matches!(d, DecodeStep::Failed(ConnectionEndedReason::Hangup)));
    let d = reader.finish_decode(Ok::<Result<u8, ()>, Error>(Ok(1)), 1);
    assert!(matches!(d, DecodeStep::Frame(1)));
}

#[test]
fn client_handler_lifecycle() {
    let (_event_loop, sender) = channel();
    let mut state: ClientHandler<LineHandler, FakeStream> = ClientHandler::new(LineHandler { fail_frames: false });
    assert!(state.has_room());
    let actions = state.notify(EventLoopMessage::NewConnection(FakeStream(42)), &sender);
    assert_eq!(actions.len(), 1);
    let token = match &actions[0] {
        LoopAction::NewConnection { conn, .. } => conn.get_id(),
        _ => panic!("expected NewConnection"),
    };
    assert!(state.contains(token));
    assert!(!state.socket(token).unwrap().get_event_set().readable);
    assert_eq!(state.socket(token).unwrap().stream(), &FakeStream(42));

    let actions = state.notify(EventLoopMessage::Read(token, Vec::new()), &sender);
    match &actions[..] {
        [LoopAction::Register { registration, must_succeed: true }] => {
            assert!(registration.first);
            assert!(registration.events.readable);
        }
        _ => panic!("expected a first registration"),
    }

    let readable = EventSet::readable();
    let actions = state.ready(token, readable, &sender);
    assert_eq!(actions.len(), 2);
    assert!(matches!(&actions[0], LoopAction::Register { registration, .. } if !registration.first && !registration.events.readable));
    assert!(matches!(&actions[1], LoopAction::Read { token: t, .. } if *t == token));

    let actions = state.notify(EventLoopMessage::Write(token), &sender);
    assert_eq!(actions.len(), 1);
    let actions = state.ready(token, EventSet::writable(), &sender);
    assert_eq!(actions.len(), 2);
    assert!(matches!(&actions[1], LoopAction::Write { token: t, .. } if *t == token));

    let actions = state.ready(token, EventSet::hup(), &sender);
    assert!(matches!(&actions[..], [LoopAction::Shutdown(req)] if req.deregister && req.token == token));
    assert!(state.ready(token, EventSet::hup(), &sender).is_empty());
    assert!(state.notify(EventLoopMessage::Close(token, ConnectionEndedReason::Hangup), &sender).is_empty());

    let actions = state.notify(EventLoopMessage::EndShutdown(token, ConnectionEndedReason::Hangup), &sender);
    assert!(matches!(&actions[..], [LoopAction::ConnectionEnded { id, reason: ConnectionEndedReason::Hangup }] if *id == token));
    assert!(!state.contains(token));
    assert!(state.notify(EventLoopMessage::Read(token, Vec::new()), &sender).is_empty());
    assert!(state.notify(EventLoopMessage::Write(token), &sender).is_empty());
    assert!(state.notify(EventLoopMessage::ContinueWrite(token, 0, b"x".to_vec()), &sender).is_empty());
    assert!(state.ready(token, EventSet::readable(), &sender).is_empty());
    assert_eq!(MAX_CONNECTIONS, 1000000);
}

#[test]
fn new_connection_task_reports_handler_outcome() {
    let (_event_loop, sender) = channel();
    let socket: Socket<String, FakeStream> = Socket::new(FakeStream(0), 9);
    let ok = LineHandler { fail_frames: false };
    let conn: Connection<LineHandler> = Connection::new(sender, 9, socket.get_write_buf());
    assert!(matches!(new_connection_task(&ok, conn.clone()), EventLoopMessage::Read(9, _)));
    let failing = LineHandler { fail_frames: true };
    assert!(matches!(
        new_connection_task(&failing, conn),
        EventLoopMessage::Close(9, ConnectionEndedReason::HandlerError)
    ));
}

#[test]
fn server_keeps_its_handler() {
    let server = Server::new(LineHandler { fail_frames: true });
    assert!(server.into_handler().fail_frames);
}

#[test]
fn connections_get_distinct_ids() {
    let (_event_loop, sender) = channel();
    let mut state: ClientHandler<LineHandler, FakeStream> =
        ClientHandler::new(LineHandler { fail_frames: false });
    let mut ids = Vec::new();
    for i in 0..3 {
        let actions = state.notify(EventLoopMessage::NewConnection(FakeStream(i)), &sender);
        match &actions[..] {
            [LoopAction::NewConnection { conn, .. }] => ids.push(conn.get_id()),
            _ => panic!("expected NewConnection"),
        }
    }
    assert_eq!(ids, vec![0, 1, 2]);
    for (i, id) in ids.iter().enumerate() {
        assert_eq!(state.socket(*id).unwrap().get_id(), *id);
        assert_eq!(state.socket(*id).unwrap().stream(), &FakeStream(i as u32));
    }
    state.notify(EventLoopMessage::EndShutdown(1, ConnectionEndedReason::Hangup), &sender);
    let actions = state.notify(EventLoopMessage::NewConnection(FakeStream(9)), &sender);
    assert!(matches!(&actions[..], [LoopAction::NewConnection { conn, .. }] if conn.get_id() == 1));
}

#[derive(Clone)]
struct GreetingHandler;

impl Handler for GreetingHandler {
    type Frame = String;
    type InvalidFrame = ();
    type Error = ();

    fn new_connection(&self, conn: Connection<Self>) -> Result<(), ()> {
        conn.send("test\n".to_owned());
        Ok(())
    }

    fn connection_ended(&self, _id: usize, _reason: ConnectionEndedReason) {}

    fn decode_frame<'a>(&self, reader: AsyncReader<'a>) -> (Result<Result<String, ()>, Error>, AsyncReader<'a>) {
        (Ok(Err(())), reader)
    }

    fn encode_frame(&self, frame: String) -> Result<Vec<u8>, io::Error> {
        Ok(frame.into_bytes())
    }

    fn on_frame(&self, _frame: String, _conn: &Connection<Self>) -> Result<(), ()> {
        Ok(())
    }
}

#[test]
fn frame_sent_on_new_connection_is_written() {
    let (_event_loop, sender) = channel();
    let mut state: ClientHandler<GreetingHandler, FakeStream> = ClientHandler::new(GreetingHandler);
    let actions = state.notify(EventLoopMessage::NewConnection(FakeStream(1)), &sender);
    let (token, msg) = match actions.into_iter().next() {
        Some(LoopAction::NewConnection { handler, conn }) => {
            let token = conn.get_id();
            (token, new_connection_task(&handler, conn))
        }
        _ => panic!("expected NewConnection"),
    };
    assert!(matches!(msg, EventLoopMessage::Read(t, _) if t == token));
    let actions = state.notify(EventLoopMessage::Write(token), &sender);
    assert!(matches!(&actions[..], [LoopAction::Register { registration, .. }] if registration.events.writable));
    let actions = state.ready(token, EventSet::writable(), &sender);
    let mut writer = match actions.into_iter().last() {
        Some(LoopAction::Write { writer, .. }) => writer,
        _ => panic!("expected Write"),
    };
    match writer.get_buf_to_write(&GreetingHandler) {
        Ok(Some((0, b))) => assert_eq!(b, b"test\n".to_vec()),
        _ => panic!("expected the greeting"),
    }
}

#[test]
fn failed_first_registration_is_undone() {
    let (_event_loop, sender) = channel();
    let mut state: ClientHandler<LineHandler, FakeStream> =
        ClientHandler::new(LineHandler { fail_frames: false });
    state.notify(EventLoopMessage::NewConnection(FakeStream(3)), &sender);
    let actions = state.notify(EventLoopMessage::ContinueWrite(0, 1, b"ab".to_vec()), &sender);
    let registration = match &actions[..] {
        [LoopAction::Register { registration, must_succeed: false }] => *registration,
        _ => panic!("expected a registration whose failure is ignored"),
    };
    assert!(registration.first);
    state.registration_done(registration, false);
    let actions = state.notify(EventLoopMessage::Read(0, Vec::new()), &sender);
    match &actions[..] {
        [LoopAction::Register { registration, .. }] => {
            assert!(registration.first);
            state.registration_done(*registration, true);
        }
        _ => panic!("expected a first registration again"),
    }
    let actions = state.notify(EventLoopMessage::Write(0), &sender);
    assert!(actions.is_empty());
    let actions = state.notify(EventLoopMessage::Close(0, ConnectionEndedReason::HandlerError), &sender);
    assert!(matches!(&actions[..], [LoopAction::Shutdown(req)] if req.deregister));

    let mut other: ClientHandler<LineHandler, FakeStream> =
        ClientHandler::new(LineHandler { fail_frames: false });
    other.notify(EventLoopMessage::NewConnection(FakeStream(4)), &sender);
    let actions = other.notify(EventLoopMessage::ContinueWrite(0, 0, Vec::new()), &sender);
    if let [LoopAction::Register { registration, .. }] = &actions[..] {
        other.registration_done(*registration, false);
    }
    let actions = other.notify(EventLoopMessage::Close(0, ConnectionEndedReason::HandlerError), &sender);
    assert!(matches!(&actions[..], [LoopAction::Shutdown(req)] if !req.deregister));
}

#[test]
fn closed_peer_closes_the_connection() {
    let (_event_loop, sender) = channel();
    let handler = LineHandler { fail_frames: false };
    let mut socket: Socket<String, FakeStream> = Socket::new(FakeStream(0), 5);
    let conn: Connection<LineHandler> = Connection::new(sender, 5, socket.get_write_buf());
    let mut reader = socket.get_socket_reader();
    assert!(matches!(reader.read(&handler, &conn, ReadEvent::Data(b"part".to_vec())), ReadStep::Continue));
    let step = reader.read(&handler, &conn, ReadEvent::Closed);
    assert!(matches!(step, ReadStep::Close(ConnectionEndedReason::Hangup)));
    assert!(matches!(
        read_finished_message(5, step, reader),
        EventLoopMessage::Close(5, ConnectionEndedReason::Hangup)
    ));
}
