use vstd::prelude::*;
use crate::handler::ConnectionEndedReason;

verus! {

/// `mio::tcp::TcpStream`, an accepted connection's socket, carried through the
/// library as an opaque value.
#[verifier::external_type_specification]
#[verifier::external_body]
pub struct ExTcpStream(mio::tcp::TcpStream);

/// `mio::Sender`, the channel into the client event loop.
#[verifier::external_type_specification]
#[verifier::external_body]
#[verifier::reject_recursive_types(M)]
pub struct ExSender<M: Send>(mio::Sender<M>);

/// What the event loop that serves client sockets is told. Connections are
/// named by their token; `S` is the type of an accepted connection's stream.
pub enum EventLoopMessage<S = mio::tcp::TcpStream> {
    /// A connection was accepted.
    NewConnection(S),
    /// Frames were queued on the connection.
    Write(usize),
    /// Writing stopped after `.1` bytes of the buffer `.2`: go on when the
    /// socket is writable again.
    ContinueWrite(usize, usize, Vec<u8>),
    /// The connection was shut down: tell the handler and free the token.
    EndShutdown(usize, ConnectionEndedReason),
    /// The connection is ready for its next read; the bytes are those not
    /// decoded yet, kept for the next reader.
    Read(usize, Vec<u8>),
    /// The handler or the socket failed: shut the connection down.
    Close(usize, ConnectionEndedReason),
}

/// Calls `mio::Sender::send`. Whether the loop takes the message depends on
/// its queue and on whether it still runs, so nothing is stated of the outcome.
#[verifier::external_body]
pub(crate) fn send_message(sender: &mio::Sender<EventLoopMessage>, msg: EventLoopMessage) {
    let _ignored = sender.send(msg);
}

/// Calls `Clone::clone` of `mio::Sender`: another sender into the same loop.
#[verifier::external_body]
pub(crate) fn clone_sender(sender: &mio::Sender<EventLoopMessage>) -> mio::Sender<EventLoopMessage> {
    sender.clone()
}

} // verus!
