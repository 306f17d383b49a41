use vstd::prelude::*;
use std::sync::Arc;
use crossbeam::sync::SegQueue;
use crate::async_reader::{AsyncReader, ByteCursor};
use crate::connection::Connection;
use crate::event_loop_message::EventLoopMessage;
use crate::event_set::EventSet;
use crate::frame_queue::{new_queue, queue_try_pop, share_queue};
use crate::handler::{ConnectionEndedReason, Handler};
use crate::io_error::{is_would_block_kind, kind_is_would_block};

verus! {

/// What reading from a connection can report.
#[derive(Debug)]
pub enum Error {
    IoError(std::io::Error),
    ReadShutdown,
    /// No more data is available yet.
    WouldBlock,
    ShuttingDown,
}

/// Why writing a connection's frames stopped early.
#[derive(Debug)]
pub enum WriteError {
    /// The socket cannot take more now: `.0` bytes of the buffer `.1` count
    /// as written, and writing goes on from there later.
    WouldBlock(usize, Vec<u8>),
    IoError(std::io::Error),
}

impl From<std::io::Error> for WriteError {
    fn from(err: std::io::Error) -> (r: WriteError) {
        WriteError::IoError(err)
    }
}

impl vstd::std_specs::convert::FromSpecImpl<std::io::Error> for WriteError {
    open spec fn obeys_from_spec() -> bool {
        true
    }

    open spec fn from_spec(err: std::io::Error) -> WriteError {
        WriteError::IoError(err)
    }
}

/// The plain state of a client socket, as the event loop keeps it.
pub struct SocketState {
    /// The connection's token, which is also its id.
    pub token: usize,
    /// A buffer whose writing stopped part way, with the count written.
    pub write_buf: Option<(usize, Vec<u8>)>,
    pub shutting_down: bool,
    /// Whether the socket has been registered with the event loop.
    pub registered: bool,
    /// Whether the loop is asked to report the socket writable.
    pub write_ready: bool,
    /// Whether the loop is asked to report the socket readable.
    pub read_ready: bool,
    /// Bytes received and not yet decoded, kept between reads; `None` while a
    /// reader holds them, or when there are none.
    pub read_buf: Option<Vec<u8>>,
}

/// A request to register a socket with the event loop, or to register it
/// again with other events.
#[derive(Clone, Copy, Debug, PartialEq, Eq, Structural)]
pub struct Registration {
    pub token: usize,
    pub events: EventSet,
    /// The socket was never registered: `register` rather than `reregister`.
    pub first: bool,
}

/// What shutting a socket down takes: shut the stream down, send `message`
/// to the event loop, and deregister the stream when `deregister`.
pub struct ShutdownRequest {
    pub token: usize,
    pub deregister: bool,
    pub message: EventLoopMessage,
}

/// The state of a new socket.
pub open spec fn fresh_state(token: usize) -> SocketState {
    SocketState {
        token,
        write_buf: None,
        shutting_down: false,
        registered: false,
        write_ready: false,
        read_ready: false,
        read_buf: None,
    }
}

/// The bytes a socket keeps for its next reader.
pub open spec fn unread(s: SocketState) -> Seq<u8> {
    match s.read_buf {
        Some(b) => b@,
        None => Seq::empty(),
    }
}

/// The state after a reader handed back the bytes it could not decode yet.
pub open spec fn with_read_buf(s: SocketState, buf: Vec<u8>) -> SocketState {
    SocketState { read_buf: Some(buf), ..s }
}

/// The state after the kept bytes went to a reader.
pub open spec fn without_read_buf(s: SocketState) -> SocketState {
    SocketState { read_buf: None, ..s }
}

/// The state after a registration failed: a first registration is undone,
/// so the socket counts as never registered again.
pub open spec fn after_failed_registration(s: SocketState, reg: Registration) -> SocketState {
    if reg.first {
        SocketState { registered: false, ..s }
    } else {
        s
    }
}

/// The events a socket in state `s` is registered for: hang-up and error
/// always, readable and writable as asked.
pub open spec fn interest(s: SocketState) -> EventSet {
    EventSet { readable: s.read_ready, writable: s.write_ready, error: true, hup: true }
}

/// The readiness asked for after a change: `None` keeps the old value.
pub open spec fn pick(new: Option<bool>, old: bool) -> bool {
    match new {
        Some(b) => b,
        None => old,
    }
}

/// Whether asking for `read` and `write` readiness changes anything.
pub open spec fn readiness_changes(s: SocketState, read: Option<bool>, write: Option<bool>) -> bool {
    pick(read, s.read_ready) != s.read_ready || pick(write, s.write_ready) != s.write_ready
}

/// The state after asking for `read` and `write` readiness: a change
/// registers the socket (a failure is reported back, see
/// `after_failed_registration`).
pub open spec fn with_readiness(
    s: SocketState,
    read: Option<bool>,
    write: Option<bool>,
) -> SocketState {
    SocketState {
        read_ready: pick(read, s.read_ready),
        write_ready: pick(write, s.write_ready),
        registered: s.registered || readiness_changes(s, read, write),
        ..s
    }
}

/// The registration that asking for `read` and `write` readiness leads to.
pub open spec fn readiness_registration(
    s: SocketState,
    read: Option<bool>,
    write: Option<bool>,
) -> Option<Registration> {
    if readiness_changes(s, read, write) {
        Some(
            Registration {
                token: s.token,
                events: interest(with_readiness(s, read, write)),
                first: !s.registered,
            },
        )
    } else {
        None
    }
}

/// The state after a shutdown has started.
pub open spec fn shut_down(s: SocketState) -> SocketState {
    SocketState { shutting_down: true, ..s }
}

/// The state after a writer took the partly written buffer.
pub open spec fn without_pending_write(s: SocketState) -> SocketState {
    SocketState { write_buf: None, ..s }
}

/// The state after a write stopped part way through `buf`.
pub open spec fn with_pending_write(s: SocketState, index: usize, buf: Vec<u8>) -> SocketState {
    SocketState { write_buf: Some((index, buf)), ..s }
}

/// A client socket: its stream (of type `S`), its state, and the queue of
/// frames waiting to be written to it.
#[verifier::reject_recursive_types(F)]
pub struct Socket<F, S = mio::tcp::TcpStream> {
    state: SocketState,
    frame_out_buf: Arc<SegQueue<F>>,
    socket: S,
}

impl<F, S> View for Socket<F, S> {
    type V = SocketState;

    closed spec fn view(&self) -> SocketState {
        self.state
    }
}

impl<F, S> Socket<F, S> {
    /// The queue of frames waiting to be written.
    pub closed spec fn queue(&self) -> Arc<SegQueue<F>> {
        self.frame_out_buf
    }

    /// The socket's stream.
    pub closed spec fn spec_stream(&self) -> S {
        self.socket
    }

    /// A socket for the stream `socket`, named `token`, with an empty queue,
    /// not registered and asking for no events yet.
    pub fn new(socket: S, token: usize) -> (s: Socket<F, S>)
        ensures
            s@ == fresh_state(token),
            s.spec_stream() == socket,
    {
        Socket {
            state: SocketState {
                token,
                write_buf: None,
                shutting_down: false,
                registered: false,
                write_ready: false,
                read_ready: false,
                read_buf: None,
            },
            frame_out_buf: Arc::new(new_queue()),
            socket,
        }
    }

    /// The socket's stream, to register it or to read and write it.
    pub fn stream(&self) -> (s: &S)
        ensures
            *s == self.spec_stream(),
    {
        &self.socket
    }

    /// Starts shutting the socket down, once: the first call marks it as
    /// shutting down and asks for the stream to be shut down, for the
    /// `EndShutdown` message with `reason` to be sent to the event loop (so
    /// that messages still on their way with this token come first and the
    /// token can be reused safely), and for a registered stream to be
    /// deregistered. Later calls do nothing.
    pub fn start_shutdown(&mut self, reason: ConnectionEndedReason) -> (r: Option<ShutdownRequest>)
        ensures
            final(self).queue() == old(self).queue(),
            final(self).spec_stream() == old(self).spec_stream(),
            old(self)@.shutting_down ==> r is None && final(self)@ == old(self)@,
            !old(self)@.shutting_down ==> {
                &&& final(self)@ == shut_down(old(self)@)
                &&& r == Some(
                    ShutdownRequest {
                        token: old(self)@.token,
                        deregister: old(self)@.registered,
                        message: EventLoopMessage::EndShutdown(old(self)@.token, reason),
                    },
                )
            },
    {
        if !self.state.shutting_down {
            self.state.shutting_down = true;
            Some(
                ShutdownRequest {
                    token: self.state.token,
                    deregister: self.state.registered,
                    message: EventLoopMessage::EndShutdown(self.state.token, reason),
                },
            )
        } else {
            None
        }
    }

    /// Keeps a buffer whose writing stopped after `index` bytes, and asks to
    /// be told when the socket is writable again.
    pub fn continue_writing(&mut self, index: usize, buf: Vec<u8>) -> (r: Option<Registration>)
        ensures
            final(self).queue() == old(self).queue(),
            final(self).spec_stream() == old(self).spec_stream(),
            final(self)@ == with_readiness(
                with_pending_write(old(self)@, index, buf),
                None,
                Some(true),
            ),
            r == readiness_registration(
                with_pending_write(old(self)@, index, buf),
                None,
                Some(true),
            ),
    {
        self.state.write_buf = Some((index, buf));
        self.set_write_readiness(true)
    }

    /// Another pointer to the socket's frame queue.
    pub fn get_write_buf(&self) -> (q: Arc<SegQueue<F>>)
        ensures
            q == self.queue(),
    {
        share_queue(&self.frame_out_buf)
    }

    /// A writer for the socket's queued frames, which first finishes the
    /// buffer whose writing stopped part way, if there is one; the writer
    /// takes that buffer, so it is written once.
    pub fn get_socket_writer(&mut self) -> (w: SocketWriter<F>)
        ensures
            final(self).queue() == old(self).queue(),
            final(self).spec_stream() == old(self).spec_stream(),
            final(self)@ == without_pending_write(old(self)@),
            w.queue() == old(self).queue(),
            w.pending() == old(self)@.write_buf,
    {
        let write_buf = self.state.write_buf.take();
        SocketWriter { frame_out_buf: share_queue(&self.frame_out_buf), write_buf }
    }

    /// A reader for the socket, which takes the bytes kept from earlier
    /// reads.
    pub fn get_socket_reader(&mut self) -> (r: SocketReader)
        ensures
            final(self).queue() == old(self).queue(),
            final(self).spec_stream() == old(self).spec_stream(),
            final(self)@ == without_read_buf(old(self)@),
            r.buffered() == unread(old(self)@),
    {
        let read_buf = match self.state.read_buf.take() {
            Some(buf) => buf,
            None => Vec::new(),
        };
        SocketReader::new(read_buf)
    }

    /// Keeps the bytes a reader could not decode yet, for the next reader.
    pub fn keep_unread(&mut self, buf: Vec<u8>)
        ensures
            final(self).queue() == old(self).queue(),
            final(self).spec_stream() == old(self).spec_stream(),
            final(self)@ == with_read_buf(old(self)@, buf),
    {
        self.state.read_buf = Some(buf);
    }

    /// Takes note that `reg`, a registration of this socket, failed: a failed
    /// first registration leaves the socket unregistered.
    pub fn registration_failed(&mut self, reg: Registration)
        ensures
            final(self).queue() == old(self).queue(),
            final(self).spec_stream() == old(self).spec_stream(),
            final(self)@ == after_failed_registration(old(self)@, reg),
    {
        if reg.first {
            self.state.registered = false;
        }
    }

    /// The events the socket asks for: hang-up and error always, readable
    /// and writable as asked.
    pub fn get_event_set(&self) -> (e: EventSet)
        ensures
            e == interest(self@),
    {
        let mut output = EventSet::none();
        if self.state.read_ready {
            output = output.union(EventSet::readable());
        }
        if self.state.write_ready {
            output = output.union(EventSet::writable());
        }
        output.union(EventSet::hup()).union(EventSet::error())
    }

    /// Asks for read readiness `read` and write readiness `write` (`None`
    /// keeps the current value). When that changes anything, the socket has
    /// to be registered anew with the events it now asks for.
    pub fn set_readiness(&mut self, read: Option<bool>, write: Option<bool>) -> (r: Option<
        Registration,
    >)
        ensures
            final(self).queue() == old(self).queue(),
            final(self).spec_stream() == old(self).spec_stream(),
            final(self)@ == with_readiness(old(self)@, read, write),
            r == readiness_registration(old(self)@, read, write),
    {
        let mut registration_needed = false;
        if let Some(read) = read {
            if read != self.state.read_ready {
                self.state.read_ready = read;
                registration_needed = true;
            }
        }
        if let Some(write) = write {
            if write != self.state.write_ready {
                self.state.write_ready = write;
                registration_needed = true;
            }
        }
        if registration_needed {
            Some(self.register())
        } else {
            None
        }
    }

    /// Asks for write readiness `ready`.
    pub fn set_write_readiness(&mut self, ready: bool) -> (r: Option<Registration>)
        ensures
            final(self).queue() == old(self).queue(),
            final(self).spec_stream() == old(self).spec_stream(),
            final(self)@ == with_readiness(old(self)@, None, Some(ready)),
            r == readiness_registration(old(self)@, None, Some(ready)),
    {
        self.set_readiness(None, Some(ready))
    }

    /// Asks for read readiness `ready`.
    pub fn set_read_readiness(&mut self, ready: bool) -> (r: Option<Registration>)
        ensures
            final(self).queue() == old(self).queue(),
            final(self).spec_stream() == old(self).spec_stream(),
            final(self)@ == with_readiness(old(self)@, Some(ready), None),
            r == readiness_registration(old(self)@, Some(ready), None),
    {
        self.set_readiness(Some(ready), None)
    }

    /// The registration of the socket for the events it asks for: a first
    /// one, or a new one when it was registered before. The socket counts as
    /// registered from then on.
    fn register(&mut self) -> (r: Registration)
        ensures
            final(self).queue() == old(self).queue(),
            final(self).spec_stream() == old(self).spec_stream(),
            final(self)@ == (SocketState { registered: true, ..old(self)@ }),
            r == (Registration { token: old(self)@.token, events: interest(old(self)@), first: !old(self)@.registered }),
    {
        let events = self.get_event_set();
        let first = !self.state.registered;
        self.state.registered = true;
        Registration { token: self.state.token, events, first }
    }

    /// The socket's id: its token.
    pub fn get_id(&self) -> (id: usize)
        ensures
            id == self@.token,
    {
        self.state.token
    }
}

/// Writes a socket's queued frames, on a worker thread; the socket's stream
/// is written by its caller.
#[verifier::reject_recursive_types(F)]
pub struct SocketWriter<F> {
    frame_out_buf: Arc<SegQueue<F>>,
    write_buf: Option<(usize, Vec<u8>)>,
}

impl<F> SocketWriter<F> {
    /// The queue the frames come from.
    pub closed spec fn queue(&self) -> Arc<SegQueue<F>> {
        self.frame_out_buf
    }

    /// The buffer whose writing stopped part way, if any.
    pub closed spec fn pending(&self) -> Option<(usize, Vec<u8>)> {
        self.write_buf
    }

    /// Whether taking the front of the writer's queue gave `popped`.
    pub closed spec fn popped(&self, popped: Option<F>) -> bool {
        call_ensures(queue_try_pop::<F>, (&*self.frame_out_buf,), popped)
    }

    /// The next buffer to write, with the count of its bytes already
    /// written: the one whose writing stopped part way, if there is one,
    /// else the frame taken from the front of the queue, encoded by the
    /// handler (`buf_for_popped`), else nothing. The queue is shared with
    /// the threads that send frames, so what it gives is not known here.
    pub fn get_buf_to_write<H: Handler<Frame = F>>(&mut self, handler: &H) -> (r: Result<
        Option<(usize, Vec<u8>)>,
        WriteError,
    >)
        ensures
            final(self).queue() == old(self).queue(),
            final(self).pending() is None,
            old(self).pending() is Some ==> r == Ok::<_, WriteError>(old(self).pending()),
            old(self).pending() is None ==> exists|popped: Option<F>| #[trigger]
                old(self).popped(popped) && popped_buffer(handler, popped, r),
    {
        if let Some(indexed_buf) = self.write_buf.take() {
            Ok(Some(indexed_buf))
        } else {
            let popped = queue_try_pop(&*self.frame_out_buf);
            let ghost p = popped;
            assert(call_ensures(queue_try_pop::<F>, (&*self.frame_out_buf,), p));
            let r = buf_for_popped(popped, handler);
            assert(self.popped(p) && popped_buffer(handler, p, r));
            r
        }
    }
}

/// Whether `r` is what a frame `popped` from the queue gives: nothing when
/// the queue was empty; else the bytes the handler's `encode_frame` gave for
/// that frame, to write from their start, or its error.
pub open spec fn popped_buffer<H: Handler>(
    handler: &H,
    popped: Option<H::Frame>,
    r: Result<Option<(usize, Vec<u8>)>, WriteError>,
) -> bool {
    match popped {
        None => r == Ok::<Option<(usize, Vec<u8>)>, WriteError>(None),
        Some(frame) => exists|encoded: Result<Vec<u8>, std::io::Error>|
            call_ensures(H::encode_frame, (handler, frame), encoded) && r == encoded_result(
                encoded,
            ),
    }
}

/// What an encoding gives: the bytes to write from their start, or the
/// encoder's error as `WriteError::IoError`.
pub open spec fn encoded_result(encoded: Result<Vec<u8>, std::io::Error>) -> Result<
    Option<(usize, Vec<u8>)>,
    WriteError,
> {
    match encoded {
        Ok(buf) => Ok(Some((0usize, buf))),
        Err(e) => Err(WriteError::IoError(e)),
    }
}

/// The buffer that a frame taken from the queue (if any) gives: the
/// handler encodes it.
pub fn buf_for_popped<H: Handler>(popped: Option<H::Frame>, handler: &H) -> (r: Result<
    Option<(usize, Vec<u8>)>,
    WriteError,
>)
    ensures
        popped_buffer(handler, popped, r),
{
    match popped {
        Some(frame) => {
            let ghost f = frame;
            let encoded = handler.encode_frame(frame);
            let ghost e = encoded;
            let r = encoded_buffer(encoded);
            assert(call_ensures(H::encode_frame, (handler, f), e) && r == encoded_result(e));
            r
        },
        None => Ok(None),
    }
}

/// What a frame taken from the queue turns into: no frame, and only no
/// frame, gives no buffer; a frame gives exactly the bytes the handler's
/// `encode_frame` gave for it, to write from their start, or, where the
/// encoder failed, its very error, which stops the writing.
pub proof fn lemma_popped_frame_encoded<H: Handler>(
    handler: &H,
    popped: Option<H::Frame>,
    r: Result<Option<(usize, Vec<u8>)>, WriteError>,
)
    requires
        call_ensures(buf_for_popped::<H>, (popped, handler), r),
    ensures
        popped is None <==> r == Ok::<Option<(usize, Vec<u8>)>, WriteError>(None),
        popped matches Some(f) ==> exists|encoded: Result<Vec<u8>, std::io::Error>| {
            &&& #[trigger] call_ensures(H::encode_frame, (handler, f), encoded)
            &&& encoded matches Ok(b) ==> (r matches Ok(Some((i, w))) && i == 0 && w == b)
            &&& encoded matches Err(e) ==> (r matches Err(WriteError::IoError(e2)) && e2 == e)
        },
{
}

/// What becomes of a frame's encoding: the buffer to write from its start,
/// or the encoder's error.
pub fn encoded_buffer(encoded: Result<Vec<u8>, std::io::Error>) -> (r: Result<
    Option<(usize, Vec<u8>)>,
    WriteError,
>)
    ensures
        r == encoded_result(encoded),
{
    match encoded {
        Ok(buf) => Ok(Some((0, buf))),
        Err(e) => Err(WriteError::IoError(e)),
    }
}

/// A buffer being written to a socket. Each write hands the socket the
/// bytes not written yet, and counts what the socket took; the buffer is done
/// once that count reaches its length.
pub struct PendingWrite {
    total_written: usize,
    buf: Vec<u8>,
}

impl PendingWrite {
    pub closed spec fn written(&self) -> usize {
        self.total_written
    }

    pub closed spec fn bytes(&self) -> Seq<u8> {
        self.buf@
    }

    /// A buffer of which `index` bytes count as written already.
    pub fn new(index: usize, buf: Vec<u8>) -> (p: PendingWrite)
        ensures
            p.written() == index,
            p.bytes() == buf@,
    {
        PendingWrite { total_written: index, buf }
    }

    /// The count of bytes written.
    pub fn total_written(&self) -> (n: usize)
        ensures
            n == self.written(),
    {
        self.total_written
    }

    /// Whether the count written reached the buffer's length.
    pub fn is_done(&self) -> (b: bool)
        ensures
            b == (self.written() >= self.bytes().len()),
    {
        self.total_written >= self.buf.len()
    }

    /// The bytes handed to the socket's next write: those not written yet.
    pub fn chunk(&self) -> (c: &[u8])
        requires
            self.written() < self.bytes().len(),
        ensures
            c@ == self.bytes().subrange(self.written() as int, self.bytes().len() as int),
    {
        vstd::slice::slice_subrange(self.buf.as_slice(), self.total_written, self.buf.len())
    }

    /// Counts `n` more bytes as written, as the socket's write reported (at
    /// most the bytes it was handed).
    pub fn advance(&mut self, n: usize)
        requires
            old(self).written() < old(self).bytes().len(),
            n <= old(self).bytes().len() - old(self).written(),
        ensures
            final(self).bytes() == old(self).bytes(),
            final(self).written() == old(self).written() + n,
            final(self).written() <= final(self).bytes().len(),
    {
        let _len: usize = self.buf.len();
        self.total_written = self.total_written + n;
    }

    /// The write stopped because the socket cannot take more now.
    pub fn into_would_block(self) -> (e: WriteError)
        ensures
            e matches WriteError::WouldBlock(n, b) && n == self.written() && b@ == self.bytes(),
    {
        WriteError::WouldBlock(self.total_written, self.buf)
    }

    /// The write failed with `err`: an error of the kind `WouldBlock` means
    /// the socket cannot take more now, any other is an I/O error.
    pub fn on_write_error(self, err: std::io::Error) -> (e: WriteError)
        ensures
            is_would_block_kind(err) ==> (e matches WriteError::WouldBlock(n, b) && n
                == self.written() && b@ == self.bytes()),
            !is_would_block_kind(err) ==> e == WriteError::IoError(err),
    {
        if kind_is_would_block(&err) {
            self.into_would_block()
        } else {
            WriteError::IoError(err)
        }
    }
}

/// What the event loop is told once writing a socket's frames ended: to go on
/// later from where the socket stopped taking bytes, to close the connection
/// after an I/O error, or nothing when every frame was written.
pub fn write_finished_message(token: usize, result: Result<(), WriteError>) -> (m: Option<
    EventLoopMessage,
>)
    ensures
        result is Ok ==> m is None,
        result matches Err(WriteError::WouldBlock(i, b)) ==> m == Some(
            EventLoopMessage::<mio::tcp::TcpStream>::ContinueWrite(token, i, b),
        ),
        result matches Err(WriteError::IoError(e)) ==> m == Some(
            EventLoopMessage::<mio::tcp::TcpStream>::Close(token, ConnectionEndedReason::IoError(e)),
        ),
{
    match result {
        Ok(()) => None,
        Err(WriteError::WouldBlock(index, buf)) => Some(EventLoopMessage::ContinueWrite(token, index, buf)),
        Err(WriteError::IoError(err)) => Some(
            EventLoopMessage::Close(token, ConnectionEndedReason::IoError(err)),
        ),
    }
}

/// What one read of a socket gave.
pub enum ReadEvent {
    /// These bytes arrived.
    Data(Vec<u8>),
    /// No data is available now.
    NoData,
    /// The peer closed its side: the read gave no bytes.
    Closed,
    /// The read failed.
    Failed(std::io::Error),
}

/// What to do after a read of a socket was handled.
pub enum ReadStep {
    /// Read the socket again.
    Continue,
    /// Stop reading until the socket is readable again.
    Done,
    /// Close the connection.
    Close(ConnectionEndedReason),
}

/// What became of one attempt to decode a frame.
pub enum DecodeStep<F> {
    /// A frame, to be handed to the handler.
    Frame(F),
    /// The bytes made no valid frame and were dropped.
    Skipped,
    /// The frame is not complete yet: the bytes stay buffered.
    Incomplete,
    /// The decoder failed: the connection closes.
    Failed(ConnectionEndedReason),
}

/// One decoding attempt of a read: what `decode_frame` gave, the position
/// its reader reached, the bytes that count as taken (the position, within
/// the bytes it was given), and what `on_frame` gave for a frame.
pub type DecodeEntry<H> = (
    Result<Result<<H as Handler>::Frame, <H as Handler>::InvalidFrame>, Error>,
    nat,
    nat,
    Option<Result<(), <H as Handler>::Error>>,
);

/// Why a connection closes when its decoder fails with `e` (other than
/// `Error::WouldBlock`).
pub open spec fn decode_failure_reason(e: Error) -> ConnectionEndedReason {
    match e {
        Error::IoError(io) => ConnectionEndedReason::IoError(io),
        _ => ConnectionEndedReason::Hangup,
    }
}

/// Whether the handler's `decode_frame`, handed a reader at the start of
/// `data`, gave `result` and a reader at position `reached`.
pub open spec fn decoded_from<H: Handler>(
    handler: &H,
    data: Seq<u8>,
    result: Result<Result<H::Frame, H::InvalidFrame>, Error>,
    reached: nat,
) -> bool {
    exists|rin: AsyncReader, rout: AsyncReader|
        rin.data() == data && rin.pos() == 0 && rout.pos() == reached && #[trigger] call_ensures(
            H::decode_frame,
            (handler, rin),
            (result, rout),
        )
}

/// Whether `e` records a decoding attempt on the bytes `input`: the decoder
/// was called on them, the bytes taken are the position it reached (no more
/// than there are), and a frame went to `on_frame` with the result recorded;
/// nothing else went to `on_frame`.
pub open spec fn entry_made<H: Handler>(
    handler: &H,
    conn: &Connection<H>,
    input: Seq<u8>,
    e: DecodeEntry<H>,
) -> bool {
    &&& decoded_from(handler, input, e.0, e.1)
    &&& e.2 == (if e.1 <= input.len() {
        e.1
    } else {
        input.len()
    })
    &&& match e.0 {
        Ok(Ok(frame)) => e.3 matches Some(handled) && call_ensures(
            H::on_frame,
            (handler, frame, conn),
            handled,
        ),
        _ => e.3 is None,
    }
}

/// The bytes an attempt dropped from the buffer: those of a frame or of an
/// invalid frame; none when the decoder failed or found the frame incomplete.
pub open spec fn entry_consumed<H: Handler>(e: DecodeEntry<H>) -> nat {
    if e.0 is Ok {
        e.2
    } else {
        0
    }
}

/// The bytes a run of attempts dropped.
pub open spec fn total_consumed<H: Handler>(log: Seq<DecodeEntry<H>>) -> nat
    decreases log.len(),
{
    if log.len() == 0 {
        0
    } else {
        total_consumed::<H>(log.drop_last()) + entry_consumed::<H>(log.last())
    }
}

/// Whether decoding goes on after an attempt: a frame that `on_frame`
/// accepted, or an invalid frame, that took some bytes.
pub open spec fn entry_goes_on<H: Handler>(e: DecodeEntry<H>) -> bool {
    match e.0 {
        Ok(Ok(_)) => e.3 matches Some(Ok(_)) && e.2 > 0,
        Ok(Err(_)) => e.2 > 0,
        Err(_) => false,
    }
}

/// What a read answers after its last attempt: a frame that `on_frame`
/// refused closes the connection (`HandlerError`); a decoder error other
/// than `WouldBlock` closes it too; anything else reads the socket again.
pub open spec fn entry_answer<H: Handler>(e: DecodeEntry<H>) -> ReadStep {
    match e.0 {
        Ok(Ok(_)) => if e.3 matches Some(Err(_)) {
            ReadStep::Close(ConnectionEndedReason::HandlerError)
        } else {
            ReadStep::Continue
        },
        Ok(Err(_)) => ReadStep::Continue,
        Err(Error::WouldBlock) => ReadStep::Continue,
        Err(err) => ReadStep::Close(decode_failure_reason(err)),
    }
}

/// Whether `log` is a run of decoding attempts over the bytes `all`: each
/// attempt decoded what the ones before left, every attempt but the last
/// went on, the last did not, and the read left `left` buffered and answered
/// `r`.
pub open spec fn read_run<H: Handler>(
    handler: &H,
    conn: &Connection<H>,
    all: Seq<u8>,
    log: Seq<DecodeEntry<H>>,
    left: Seq<u8>,
    r: ReadStep,
) -> bool {
    &&& log.len() > 0
    &&& forall|i: int|
        0 <= i < log.len() ==> entry_made(
            handler,
            conn,
            all.skip(total_consumed::<H>(log.take(i)) as int),
            #[trigger] log[i],
        )
    &&& forall|i: int| 0 <= i < log.len() - 1 ==> entry_goes_on::<H>(#[trigger] log[i])
    &&& !entry_goes_on::<H>(log.last())
    &&& total_consumed::<H>(log) <= all.len()
    &&& left == all.skip(total_consumed::<H>(log) as int)
    &&& r == entry_answer::<H>(log.last())
}

/// The bytes a run of attempts took before attempt `i` never exceed what the
/// whole run took.
proof fn lemma_prefix_consumed<H: Handler>(log: Seq<DecodeEntry<H>>, i: int)
    requires
        0 <= i <= log.len(),
    ensures
        total_consumed::<H>(log.take(i)) <= total_consumed::<H>(log),
        i < log.len() ==> total_consumed::<H>(log.take(i + 1)) == total_consumed::<H>(log.take(i))
            + entry_consumed::<H>(log[i]),
    decreases log.len() - i,
{
    if i < log.len() {
        assert(log.take(i + 1).drop_last() =~= log.take(i));
        lemma_prefix_consumed::<H>(log, i + 1);
    } else {
        assert(log.take(i) =~= log);
    }
}

/// What a read does with the bytes, told by the decoder's own results: the
/// attempts decode `all` from its start, each next one the bytes after the
/// position the one before reached (frames and invalid frames alike drop
/// exactly the bytes their decoder passed over); decoding goes on after a
/// frame `on_frame` accepted or an invalid frame, as long as they took bytes,
/// and stops only at an incomplete frame, a refused frame, a failed decoder,
/// or an attempt that took nothing; every frame went to `on_frame` as the
/// decoder gave it; the bytes left are those after the last position an
/// accepted result reached; and a refused frame or failed decoder closes the
/// connection.
#[verifier::rlimit(50)]
#[verifier::spinoff_prover]
pub proof fn lemma_read_run_decodes_in_order<H: Handler>(
    handler: &H,
    conn: &Connection<H>,
    all: Seq<u8>,
    log: Seq<DecodeEntry<H>>,
    left: Seq<u8>,
    r: ReadStep,
)
    requires
        read_run(handler, conn, all, log, left, r),
    ensures
        exists|inputs: Seq<Seq<u8>>| {
            &&& inputs.len() == log.len()
            &&& inputs[0] == all
            &&& forall|i: int|
                0 <= i < log.len() ==> decoded_from(handler, #[trigger] inputs[i], log[i].0, log[i].1)
                    && log[i].2 == (if log[i].1 <= inputs[i].len() {
                    log[i].1
                } else {
                    inputs[i].len()
                })
            &&& forall|i: int|
                0 <= i < log.len() - 1 ==> log[i].0 is Ok && log[i].2 > 0 && #[trigger] inputs[i
                    + 1] == inputs[i].skip(log[i].2 as int)
            &&& forall|i: int|
                0 <= i < log.len() - 1 ==> (#[trigger] log[i].0 matches Ok(Ok(_)) ==> log[i].3 matches Some(Ok(_)))
            &&& left == (if log.last().0 is Ok {
                inputs.last().skip(log.last().2 as int)
            } else {
                inputs.last()
            })
        },
        forall|i: int|
            0 <= i < log.len() ==> (#[trigger] log[i].0 matches Ok(Ok(f)) ==> log[i].3 matches Some(h) && call_ensures(H::on_frame, (handler, f, conn), h)),
        !(log.last().0 matches Ok(Err(_)) && log.last().2 > 0),
        !(log.last().0 matches Ok(Ok(_)) && log.last().3 matches Some(Ok(_)) && log.last().2 > 0),
        (log.last().0 is Ok && log.last().0->Ok_0 is Ok && log.last().3 matches Some(Err(_))) ==> r
            == ReadStep::Close(ConnectionEndedReason::HandlerError),
        log.last().0 matches Err(e) ==> (!(e is WouldBlock) ==> r is Close),
        log.last().0 matches Err(Error::WouldBlock) ==> r is Continue,
{
    let n = log.len() as int;
    let inputs = Seq::new(log.len(), |i: int| all.skip(total_consumed::<H>(log.take(i)) as int));
    assert(log.take(0) =~= Seq::<DecodeEntry<H>>::empty());
    assert(all.skip(0) =~= all);
    assert forall|i: int| 0 <= i < log.len() - 1 implies log[i].0 is Ok && log[i].2 > 0 && #[trigger] inputs[i + 1] == inputs[i].skip(log[i].2 as int) by {
        assert(entry_goes_on::<H>(log[i]));
        lemma_prefix_consumed::<H>(log, i);
        lemma_prefix_consumed::<H>(log, i + 1);
        assert(inputs[i + 1] =~= inputs[i].skip(log[i].2 as int));
    }
    assert forall|i: int|
        0 <= i < log.len() - 1 implies (#[trigger] log[i].0 matches Ok(Ok(_)) ==> log[i].3 matches Some(Ok(_))) by {
        assert(entry_goes_on::<H>(log[i]));
    }
    assert forall|i: int|
        0 <= i < log.len() implies decoded_from(handler, #[trigger] inputs[i], log[i].0, log[i].1)
            && log[i].2 == (if log[i].1 <= inputs[i].len() {
            log[i].1
        } else {
            inputs[i].len()
        }) by {
        assert(entry_made(handler, conn, inputs[i], log[i]));
    }
    assert forall|i: int| 0 <= i < log.len() implies (#[trigger] log[i].0 matches Ok(Ok(f)) ==> log[i].3 matches Some(h) && call_ensures(H::on_frame, (handler, f, conn), h)) by {
        assert(entry_made(handler, conn, inputs[i], log[i]));
    }
    lemma_prefix_consumed::<H>(log, n - 1);
    assert(log.take(n) =~= log);
    assert(left =~= (if log.last().0 is Ok {
        inputs.last().skip(log.last().2 as int)
    } else {
        inputs.last()
    }));
    assert({
            &&& inputs.len() == log.len()
            &&& inputs[0] == all
            &&& forall|i: int|
                0 <= i < log.len() ==> decoded_from(handler, #[trigger] inputs[i], log[i].0, log[i].1)
                    && log[i].2 == (if log[i].1 <= inputs[i].len() {
                    log[i].1
                } else {
                    inputs[i].len()
                })
            &&& forall|i: int|
                0 <= i < log.len() - 1 ==> log[i].0 is Ok && log[i].2 > 0 && #[trigger] inputs[i
                    + 1] == inputs[i].skip(log[i].2 as int)
            &&& forall|i: int|
                0 <= i < log.len() - 1 ==> (#[trigger] log[i].0 matches Ok(Ok(_)) ==> log[i].3 matches Some(Ok(_)))
            &&& left == (if log.last().0 is Ok {
                inputs.last().skip(log.last().2 as int)
            } else {
                inputs.last()
            })
        });
}

/// What a read answers once `on_frame` returned for a frame that took
/// `position` bytes, and whether decoding goes on: it does when the handler
/// accepted the frame and the frame took some bytes; a refused frame closes
/// the connection.
pub fn after_frame<E>(handled: &Result<(), E>, position: usize) -> (r: (ReadStep, bool))
    ensures
        handled is Ok ==> r.0 is Continue && r.1 == (position > 0),
        handled is Err ==> r.0 == ReadStep::Close(ConnectionEndedReason::HandlerError) && !r.1,
{
    match handled {
        Ok(()) => (ReadStep::Continue, position > 0),
        Err(_) => (ReadStep::Close(ConnectionEndedReason::HandlerError), false),
    }
}

/// Reads a socket's frames, on a worker thread: the bytes received are
/// buffered until they make a frame. The socket's stream is read by its
/// caller.
pub struct SocketReader {
    read_buf: Vec<u8>,
}

impl SocketReader {
    /// The bytes received and not yet decoded.
    pub closed spec fn buffered(&self) -> Seq<u8> {
        self.read_buf@
    }

    /// A reader that starts with the bytes `buf` kept from earlier reads.
    pub fn new(buf: Vec<u8>) -> (r: SocketReader)
        ensures
            r.buffered() == buf@,
    {
        SocketReader { read_buf: buf }
    }

    /// The bytes not decoded yet, to keep for the next reader.
    pub fn into_buffer(self) -> (b: Vec<u8>)
        ensures
            b@ == self.buffered(),
    {
        self.read_buf
    }

    /// Handles one read of the socket. Bytes that arrived are buffered, and
    /// frames are decoded from the front of the buffer one after another,
    /// each handed to the handler's `on_frame` in order and dropped from the
    /// buffer, until the next frame is not complete (its bytes stay, for the
    /// next read), or an attempt takes no bytes. A failure of the decoder or
    /// a frame that `on_frame` refuses closes the connection. No data means
    /// reading stops for now; a closed peer closes the connection; a failed
    /// read is retried.
    #[verifier::rlimit(60)]
    #[verifier::spinoff_prover]
    pub fn read<H: Handler>(&mut self, handler: &H, conn: &Connection<H>, event: ReadEvent) -> (r:
        ReadStep)
        ensures
            event is NoData ==> r is Done && final(self).buffered() == old(self).buffered(),
            event is Closed ==> r == ReadStep::Close(ConnectionEndedReason::Hangup)
                && final(self).buffered() == old(self).buffered(),
            event is Failed ==> r is Continue && final(self).buffered() == old(self).buffered(),
            event matches ReadEvent::Data(bytes) ==> exists|log: Seq<DecodeEntry<H>>| #[trigger]
                read_run(
                    handler,
                    conn,
                    old(self).buffered() + bytes@,
                    log,
                    final(self).buffered(),
                    r,
                ),
    {
        match event {
            ReadEvent::Data(mut bytes) => {
                let ghost all = self.read_buf@ + bytes@;
                assert(all == old(self).buffered() + event->Data_0@);
                self.read_buf.append(&mut bytes);
                let ghost mut log: Seq<DecodeEntry<H>> = Seq::empty();
                proof {
                    assert(all.skip(0) =~= all);
                }
                loop
                    invariant
                        event matches ReadEvent::Data(b) && all == old(self).buffered() + b@,
                        forall|i: int|
                            0 <= i < log.len() ==> entry_made(
                                handler,
                                conn,
                                all.skip(total_consumed::<H>(log.take(i)) as int),
                                #[trigger] log[i],
                            ),
                        forall|i: int| 0 <= i < log.len() ==> entry_goes_on::<H>(#[trigger] log[i]),
                        total_consumed::<H>(log) <= all.len(),
                        self.read_buf@ == all.skip(total_consumed::<H>(log) as int),
                    decreases self.read_buf@.len(),
                {
                    let ghost input = self.read_buf@;
                    let reader = AsyncReader::new(ByteCursor::new(self.read_buf.as_slice()));
                    let ghost rin = reader;
                    let (decoded, reader_back) = handler.decode_frame(reader);
                    let reached: usize = reader_back.position();
                    let ghost dres = decoded;
                    proof {
                        assert(call_ensures(H::decode_frame, (handler, rin), (dres, reader_back)));
                        assert(decoded_from(handler, input, dres, reached as nat));
                    }
                    let position: usize = if reached <= self.read_buf.len() {
                        reached
                    } else {
                        self.read_buf.len()
                    };
                    let step = self.finish_decode(decoded, position);
                    let ghost mut handled: Option<Result<(), H::Error>> = None;
                    let answer: ReadStep;
                    let go_on: bool;
                    match step {
                        DecodeStep::Frame(frame) => {
                            let ghost f = frame;
                            let result = handler.on_frame(frame, conn);
                            proof {
                                assert(call_ensures(H::on_frame, (handler, f, conn), result));
                                handled = Some(result);
                            }
                            let (a, g) = after_frame(&result, position);
                            answer = a;
                            go_on = g;
                        },
                        DecodeStep::Skipped => {
                            answer = ReadStep::Continue;
                            go_on = position > 0;
                        },
                        DecodeStep::Incomplete => {
                            answer = ReadStep::Continue;
                            go_on = false;
                        },
                        DecodeStep::Failed(reason) => {
                            answer = ReadStep::Close(reason);
                            go_on = false;
                        },
                    }
                    proof {
                        let entry: DecodeEntry<H> = (dres, reached as nat, position as nat, handled);
                        let old_log = log;
                        let new_log = old_log.push(entry);
                        assert(new_log.drop_last() =~= old_log);
                        assert(new_log.take(old_log.len() as int) =~= old_log);
                        assert forall|i: int| 0 <= i < old_log.len() implies new_log.take(i)
                            =~= old_log.take(i) by {}
                        assert(total_consumed::<H>(new_log) == total_consumed::<H>(old_log)
                            + entry_consumed::<H>(entry));
                        assert(all.skip(total_consumed::<H>(new_log) as int) =~= input.skip(
                            entry_consumed::<H>(entry) as int,
                        ));
                        assert(entry_made(handler, conn, input, entry));
                        assert(entry_goes_on::<H>(entry) == go_on);
                        assert(entry_answer::<H>(entry) == answer);
                        log = new_log;
                        if !go_on {
                            assert(read_run(handler, conn, all, log, self.read_buf@, answer));
                        }
                    }
                    if !go_on {
                        return answer;
                    }
                }
            },
            ReadEvent::NoData => ReadStep::Done,
            ReadEvent::Closed => ReadStep::Close(ConnectionEndedReason::Hangup),
            ReadEvent::Failed(_) => ReadStep::Continue,
        }
    }

    /// Settles one decoding attempt that stopped at `position` of the buffer:
    /// a frame or an invalid frame drops the bytes before `position`;
    /// `Error::WouldBlock` keeps every byte for the next attempt; any other
    /// error keeps the buffer and closes the connection.
    pub fn finish_decode<F, I>(&mut self, decoded: Result<Result<F, I>, Error>, position: usize) -> (r:
        DecodeStep<F>)
        requires
            position <= old(self).buffered().len(),
        ensures
            decoded matches Ok(Ok(f)) ==> r == DecodeStep::Frame(f) && final(self).buffered()
                == old(self).buffered().skip(position as int),
            decoded matches Ok(Err(_)) ==> r is Skipped && final(self).buffered()
                == old(self).buffered().skip(position as int),
            decoded matches Err(Error::WouldBlock) ==> r is Incomplete && final(self).buffered()
                == old(self).buffered(),
            decoded matches Err(e) ==> (!(e is WouldBlock) ==> r == DecodeStep::<F>::Failed(
                decode_failure_reason(e),
            ) && final(self).buffered() == old(self).buffered()),
    {
        match decoded {
            Ok(Ok(frame)) => {
                self.consume(position);
                DecodeStep::Frame(frame)
            },
            Ok(Err(_bad_frame)) => {
                self.consume(position);
                DecodeStep::Skipped
            },
            Err(Error::WouldBlock) => DecodeStep::Incomplete,
            Err(Error::IoError(e)) => DecodeStep::Failed(ConnectionEndedReason::IoError(e)),
            Err(_) => DecodeStep::Failed(ConnectionEndedReason::Hangup),
        }
    }

    /// Drops the first `n` buffered bytes.
    fn consume(&mut self, n: usize)
        requires
            n <= old(self).buffered().len(),
        ensures
            final(self).buffered() == old(self).buffered().skip(n as int),
    {
        let rest = vstd::slice::slice_subrange(self.read_buf.as_slice(), n, self.read_buf.len());
        self.read_buf = vstd::slice::slice_to_vec(rest);
    }
}

/// What the event loop is told once reading a socket stopped: that it is
/// ready for its next read, with the bytes the reader could not decode yet,
/// or to close the connection.
pub fn read_finished_message(token: usize, step: ReadStep, reader: SocketReader) -> (m:
    EventLoopMessage)
    requires
        !(step is Continue),
    ensures
        step is Done ==> (m matches EventLoopMessage::Read(t, b) && t == token && b@
            == reader.buffered()),
        step matches ReadStep::Close(reason) ==> m == EventLoopMessage::<mio::tcp::TcpStream>::Close(
            token,
            reason,
        ),
{
    match step {
        ReadStep::Close(reason) => EventLoopMessage::Close(token, reason),
        _ => EventLoopMessage::Read(token, reader.into_buffer()),
    }
}

/// Asking for the same readiness twice in a row changes nothing the second
/// time, and so registers the socket at most once.
pub proof fn lemma_readiness_idempotent(s: SocketState, read: Option<bool>, write: Option<bool>)
    ensures
        readiness_registration(with_readiness(s, read, write), read, write) is None,
        with_readiness(with_readiness(s, read, write), read, write) == with_readiness(s, read, write),
{
}

/// A socket is registered for the first time only once: after a change of
/// readiness it counts as registered, and every later registration renews it.
pub proof fn lemma_first_registration_once(
    s: SocketState,
    read1: Option<bool>,
    write1: Option<bool>,
    read2: Option<bool>,
    write2: Option<bool>,
)
    requires
        readiness_changes(s, read1, write1),
    ensures
        with_readiness(s, read1, write1).registered,
        readiness_registration(with_readiness(s, read1, write1), read2, write2) matches Some(reg)
            ==> !reg.first,
{
}

/// A registration asks for hang-up and error always, and for readable and
/// writable exactly as the socket now asks; it names the socket's token.
pub proof fn lemma_registration_events(s: SocketState, read: Option<bool>, write: Option<bool>)
    requires
        readiness_changes(s, read, write),
    ensures
        readiness_registration(s, read, write) == Some(
            Registration {
                token: s.token,
                events: EventSet {
                    readable: pick(read, s.read_ready),
                    writable: pick(write, s.write_ready),
                    error: true,
                    hup: true,
                },
                first: !s.registered,
            },
        ),
{
}

/// Once a socket started shutting down it stays so, whatever readiness it
/// asks for or buffer it keeps; so a shutdown starts at most once. No change
/// renames a socket.
pub proof fn lemma_shutdown_sticky(
    s: SocketState,
    read: Option<bool>,
    write: Option<bool>,
    index: usize,
    buf: Vec<u8>,
)
    ensures
        shut_down(s).shutting_down,
        s.shutting_down ==> with_readiness(s, read, write).shutting_down,
        s.shutting_down ==> with_pending_write(s, index, buf).shutting_down,
        shut_down(s).token == s.token,
        with_readiness(s, read, write).token == s.token,
        with_pending_write(s, index, buf).token == s.token,
{
}

} // verus!
