use vstd::prelude::*;
use crate::async_reader::AsyncReader;
use crate::connection::Connection;
use crate::socket::Error;

verus! {

/// Why a connection ended.
#[derive(Debug)]
pub enum ConnectionEndedReason {
    IoError(std::io::Error),
    Hangup,
    /// A method of the handler returned an error.
    HandlerError,
}

/// What a server does with its connections: the protocol, written by the
/// library's user.
pub trait Handler: Sized + Clone + Send + 'static {
    type Frame: Send;
    type InvalidFrame;
    type Error: std::fmt::Debug;

    /// Called when a new connection has been established. The connection may
    /// be cloned and kept for sending later; `conn.get_id()` gives its unique
    /// id. Processing of the connection starts after this returns. An error
    /// closes the connection, and `connection_ended` is called.
    fn new_connection(&self, conn: Connection<Self>) -> Result<(), Self::Error>;

    /// Called when a connection has closed, with its id.
    fn connection_ended(&self, id: usize, reason: ConnectionEndedReason);

    /// Called when there is data on the connection ready to be read: decodes
    /// one frame from the front of the bytes received, and hands the reader
    /// back. When the reader runs out of data it reports `Error::WouldBlock`;
    /// returning that error restores all the data read, and the call is made
    /// again when more has arrived. A protocol error is returned as an
    /// `InvalidFrame`. Any other error (`Error::IoError`, or a shutdown) closes
    /// the connection, as `Hangup` unless it is an I/O error. The bytes the
    /// returned reader has passed over count as taken by the frame.
    fn decode_frame<'a>(&self, reader: AsyncReader<'a>) -> (
        Result<Result<Self::Frame, Self::InvalidFrame>, Error>,
        AsyncReader<'a>,
    );

    /// Called when a frame is being written: gives its bytes. An I/O error
    /// closes the connection.
    fn encode_frame(&self, frame: Self::Frame) -> Result<Vec<u8>, std::io::Error>;

    /// Called when a frame is ready to be processed, in the order the frames
    /// were received. An error closes the connection, and
    /// `connection_ended` is called.
    fn on_frame(&self, frame: Self::Frame, conn: &Connection<Self>) -> Result<(), Self::Error>;
}

} // verus!
