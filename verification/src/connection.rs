use vstd::prelude::*;
use std::sync::Arc;
use crossbeam::sync::SegQueue;
use crate::event_loop_message::{clone_sender, send_message, EventLoopMessage};
use crate::frame_queue::{queue_push, share_queue};
use crate::handler::Handler;

verus! {

/// A handle on one connection, through which frames are sent to the peer.
pub struct Connection<H: Handler> {
    sender: mio::Sender<EventLoopMessage>,
    token: usize,
    write_queue: Arc<SegQueue<H::Frame>>,
}

impl<H: Handler> Connection<H> {
    /// The connection's id: the token of its socket.
    pub closed spec fn id(&self) -> usize {
        self.token
    }

    /// The queue its frames go to.
    pub closed spec fn queue(&self) -> Arc<SegQueue<H::Frame>> {
        self.write_queue
    }

    pub fn new(
        sender: mio::Sender<EventLoopMessage>,
        token: usize,
        write_queue: Arc<SegQueue<H::Frame>>,
    ) -> (c: Connection<H>)
        ensures
            c.id() == token,
            c.queue() == write_queue,
    {
        Connection { sender, token, write_queue }
    }

    /// The connection's unique id.
    pub fn get_id(&self) -> (id: usize)
        ensures
            id == self.id(),
    {
        self.token
    }

    /// The message that tells the event loop the connection has frames to
    /// write.
    pub fn write_notice(&self) -> (m: EventLoopMessage)
        ensures
            m == EventLoopMessage::<mio::tcp::TcpStream>::Write(self.id()),
    {
        EventLoopMessage::Write(self.token)
    }

    /// Whether `msg` was handed to this connection's channel into the event
    /// loop.
    pub closed spec fn sent(&self, msg: EventLoopMessage) -> bool {
        call_ensures(send_message, (&self.sender, msg), ())
    }

    /// Whether `frame` was pushed on this connection's queue.
    pub closed spec fn queued(&self, frame: H::Frame) -> bool {
        call_ensures(queue_push::<H::Frame>, (&*self.write_queue, frame), ())
    }

    /// Queues a frame to be sent, on the connection's queue, and tells the
    /// event loop that the connection has frames to write (`write_notice`).
    pub fn send(&self, data: H::Frame)
        ensures
            self.queued(data),
            self.sent(EventLoopMessage::Write(self.id())),
    {
        let ghost d = data;
        queue_push(&*self.write_queue, data);
        let notice = self.write_notice();
        let ghost n = notice;
        send_message(&self.sender, notice);
        assert(call_ensures(send_message, (&self.sender, n), ()));
    }
}

impl<H: Handler> Clone for Connection<H> {
    /// Another handle on the same connection.
    fn clone(&self) -> (c: Self)
        ensures
            c.id() == self.id(),
            c.queue() == self.queue(),
    {
        Connection {
            sender: clone_sender(&self.sender),
            token: self.token,
            write_queue: share_queue(&self.write_queue),
        }
    }
}

/// Sending a frame on a connection pushes that very frame on the
/// connection's queue and tells the event loop, with `Write` and the
/// connection's id, that the connection has frames to write.
pub proof fn lemma_send_queues_and_tells<H: Handler>(conn: &Connection<H>, data: H::Frame)
    requires
        call_ensures(Connection::<H>::send, (conn, data), ()),
    ensures
        conn.queued(data),
        conn.sent(EventLoopMessage::Write(conn.id())),
{
}

} // verus!
