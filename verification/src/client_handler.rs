use vstd::prelude::*;
use crate::connection::Connection;
use crate::event_loop_message::{clone_sender, EventLoopMessage};
use crate::event_set::EventSet;
use crate::handler::{ConnectionEndedReason, Handler};
use crate::socket::{
    after_failed_registration, fresh_state, interest, readiness_registration, shut_down,
    unread, with_pending_write, with_read_buf, with_readiness, without_pending_write, without_read_buf, Registration,
    ShutdownRequest, Socket, SocketReader, SocketState, SocketWriter,
};
use crate::token_slab::TokenSlab;

verus! {

/// The most client sockets the event loop serves at once.
pub const MAX_CONNECTIONS: usize = 1000000;

/// What the client event loop has to do after deciding on a message or on an
/// event: the socket work, and the work handed to the thread pool.
#[verifier::reject_recursive_types(H)]
pub enum LoopAction<H: Handler> {
    /// Register the socket's stream with the loop (or again, when not
    /// `registration.first`). A failure is fatal when `must_succeed`, and
    /// ignored otherwise.
    Register { registration: Registration, must_succeed: bool },
    /// Shut the socket's stream down, send the message, deregister it when
    /// asked.
    Shutdown(ShutdownRequest),
    /// On the pool: run `new_connection_task` and send the message it gives.
    NewConnection { handler: H, conn: Connection<H> },
    /// On the pool: write the socket's frames with `writer` and send what
    /// `write_finished_message` gives.
    Write { token: usize, handler: H, writer: SocketWriter<H::Frame> },
    /// On the pool: read the socket with `reader` until it has no data, and
    /// send what `read_finished_message` gives.
    Read { token: usize, handler: H, reader: SocketReader, conn: Connection<H> },
    /// Call the handler's `connection_ended` with the connection's id.
    ConnectionEnded { id: usize, reason: ConnectionEndedReason },
}

/// The action that a registration request, if any, leads to.
pub open spec fn registration_actions<H: Handler>(
    reg: Option<Registration>,
    must_succeed: bool,
) -> Seq<LoopAction<H>> {
    match reg {
        Some(registration) => seq![LoopAction::Register { registration, must_succeed }],
        None => Seq::empty(),
    }
}

/// Whether socket `new` is socket `old` in state `state`: same stream, same
/// frame queue.
pub open spec fn socket_moved_to<F, S>(old: Socket<F, S>, new: Socket<F, S>, state: SocketState) -> bool {
    &&& new@ == state
    &&& new.queue() == old.queue()
    &&& new.spec_stream() == old.spec_stream()
}

/// Whether `a` hands the writing of socket `s`, named `token`, to the pool:
/// its writer takes the socket's queue and its partly written buffer (which
/// the socket gives up).
pub open spec fn is_write_action<H: Handler, S>(
    a: LoopAction<H>,
    token: usize,
    s: Socket<H::Frame, S>,
) -> bool {
    a matches LoopAction::Write { token: t, writer, .. } && t == token && writer.queue()
        == s.queue() && writer.pending() == s@.write_buf
}

/// Whether `a` hands the reading of socket `s`, named `token`, to the pool:
/// a reader that starts with the bytes the socket kept from earlier reads,
/// and a connection handle on the socket.
pub open spec fn is_read_action<H: Handler, S>(
    a: LoopAction<H>,
    token: usize,
    s: Socket<H::Frame, S>,
) -> bool {
    a matches LoopAction::Read { token: t, reader, conn, .. } && t == token && reader.buffered()
        == unread(s@) && conn.id() == token && conn.queue() == s.queue()
}

/// The state of a socket after a readiness event without hang-up: writable
/// stops asking for write readiness and hands the partly written buffer to
/// the writer, then readable stops asking for read
/// readiness and hands the kept bytes to the reader.
pub open spec fn state_after_ready(s: SocketState, events: EventSet) -> SocketState {
    let after_write = if events.writable {
        without_pending_write(with_readiness(s, None, Some(false)))
    } else {
        s
    };
    if events.readable {
        without_read_buf(with_readiness(after_write, Some(false), None))
    } else {
        after_write
    }
}

/// The state of the client sockets, and the decisions of the event loop that
/// serves them; `S` is the type of a socket's stream.
#[verifier::reject_recursive_types(H)]
#[verifier::reject_recursive_types(S)]
pub struct ClientHandler<H: Handler, S = mio::tcp::TcpStream> {
    sockets: TokenSlab<Socket<H::Frame, S>>,
    handler: H,
}

impl<H: Handler, S> ClientHandler<H, S> {
    /// The client sockets, by token.
    pub closed spec fn sockets(&self) -> Map<usize, Socket<H::Frame, S>> {
        self.sockets.view()
    }

    /// The token the next new connection gets: the most recently freed one,
    /// else the first never used; none when the table is full.
    pub closed spec fn next_token(&self) -> Option<usize> {
        self.sockets.next_key()
    }

    /// The handler.
    pub closed spec fn spec_handler(&self) -> H {
        self.handler
    }

    /// The handler, to call `connection_ended` with.
    pub fn handler(&self) -> (h: &H)
        ensures
            *h == self.spec_handler(),
    {
        &self.handler
    }

    /// The invariant: the socket stored under a token is named by it, and
    /// the table holds at most `MAX_CONNECTIONS` sockets.
    pub closed spec fn wf(&self) -> bool {
        &&& self.sockets.wf()
        &&& self.sockets.spec_capacity() == MAX_CONNECTIONS
        &&& forall|k: usize| #[trigger]
            self.sockets.view().dom().contains(k) ==> self.sockets.view()[k]@.token == k
    }

    /// A handler state with no sockets.
    pub fn new(handler: H) -> (c: Self)
        ensures
            c.wf(),
            c.sockets() == Map::<usize, Socket<H::Frame, S>>::empty(),
            c.spec_handler() == handler,
    {
        ClientHandler { sockets: TokenSlab::new(MAX_CONNECTIONS), handler }
    }

    /// Whether another socket fits.
    pub fn has_room(&self) -> (b: bool)
        requires
            self.wf(),
        ensures
            b == (self.sockets().len() < MAX_CONNECTIONS),
    {
        self.sockets.has_remaining()
    }

    /// Whether a socket is stored under `token`.
    pub fn contains(&self, token: usize) -> (b: bool)
        ensures
            b == self.sockets().dom().contains(token),
    {
        self.sockets.contains(token)
    }

    /// The socket stored under `token`, if any.
    pub fn socket(&self, token: usize) -> (s: Option<&Socket<H::Frame, S>>)
        ensures
            s == (if self.sockets().dom().contains(token) {
                Some(&self.sockets()[token])
            } else {
                None
            }),
    {
        self.sockets.get(token)
    }

    /// A connection handle for the socket stored under `token`.
    pub fn get_connection(&self, token: usize, sender: &mio::Sender<EventLoopMessage>) -> (c:
        Connection<H>)
        requires
            self.sockets().dom().contains(token),
        ensures
            c.id() == token,
            c.queue() == self.sockets()[token].queue(),
    {
        let socket = self.sockets.get(token).unwrap();
        Connection::new(clone_sender(sender), token, socket.get_write_buf())
    }

    /// Decides on a message to the client event loop. `NewConnection`
    /// stores a new socket under a free token and has the handler's
    /// `new_connection` run; `Write` asks for write readiness; `ContinueWrite`
    /// keeps the partly written buffer and asks for write readiness;
    /// `EndShutdown` has the handler told that the connection ended, and
    /// frees the token; `Read` keeps the bytes not decoded yet and asks for
    /// read readiness; `Close` starts shutting the socket down. A message
    /// for a token no longer stored (a write on a connection that ended, say)
    /// changes nothing.
    pub fn notify(&mut self, msg: EventLoopMessage<S>, sender: &mio::Sender<EventLoopMessage>) -> (r:
        Vec<LoopAction<H>>)
        requires
            old(self).wf(),
            msg is NewConnection ==> old(self).sockets().len() < MAX_CONNECTIONS,
        ensures
            final(self).wf(),
            final(self).spec_handler() == old(self).spec_handler(),
            msg matches EventLoopMessage::NewConnection(stream) ==> {
                &&& r@.len() == 1
                &&& r@[0] matches LoopAction::NewConnection { conn, .. } && {
                    let k = conn.id();
                    &&& old(self).next_token() == Some(k)
                    &&& !old(self).sockets().dom().contains(k)
                    &&& final(self).sockets() == old(self).sockets().insert(
                        k,
                        final(self).sockets()[k],
                    )
                    &&& final(self).sockets()[k]@ == fresh_state(k)
                    &&& final(self).sockets()[k].spec_stream() == stream
                    &&& conn.queue() == final(self).sockets()[k].queue()
                }
            },
            msg matches EventLoopMessage::Write(t) ==> (old(self).sockets().dom().contains(t) ==> {
                let s = old(self).sockets()[t];
                &&& final(self).sockets() == old(self).sockets().insert(t, final(self).sockets()[t])
                &&& socket_moved_to(s, final(self).sockets()[t], with_readiness(s@, None, Some(true)))
                &&& r@ == registration_actions::<H>(
                    readiness_registration(s@, None, Some(true)),
                    true,
                )
            }),
            msg matches EventLoopMessage::Write(t) ==> (!old(self).sockets().dom().contains(t) ==> {
                &&& final(self).sockets() == old(self).sockets()
                &&& r@.len() == 0
            }),
            msg matches EventLoopMessage::ContinueWrite(t, i, b) ==> (old(self).sockets().dom().contains(
                t,
            ) ==> {
                let s = old(self).sockets()[t];
                let pending = with_pending_write(s@, i, b);
                &&& final(self).sockets() == old(self).sockets().insert(t, final(self).sockets()[t])
                &&& socket_moved_to(s, final(self).sockets()[t], with_readiness(pending, None, Some(true)))
                &&& r@ == registration_actions::<H>(
                    readiness_registration(pending, None, Some(true)),
                    false,
                )
            }),
            msg matches EventLoopMessage::ContinueWrite(t, _, _) ==> (!old(self).sockets().dom().contains(
                t,
            ) ==> {
                &&& final(self).sockets() == old(self).sockets()
                &&& r@.len() == 0
            }),
            msg matches EventLoopMessage::EndShutdown(t, reason) ==> {
                &&& final(self).sockets() == old(self).sockets().remove(t)
                &&& old(self).sockets().dom().contains(t) ==> final(self).next_token() == Some(t)
                &&& r@ == seq![LoopAction::<H>::ConnectionEnded { id: t, reason }]
            },
            msg matches EventLoopMessage::Read(t, b) ==> {
                if old(self).sockets().dom().contains(t) {
                    let s = old(self).sockets()[t];
                    let kept = with_read_buf(s@, b);
                    &&& final(self).sockets() == old(self).sockets().insert(t, final(self).sockets()[t])
                    &&& socket_moved_to(s, final(self).sockets()[t], with_readiness(kept, Some(true), None))
                    &&& r@ == registration_actions::<H>(
                        readiness_registration(kept, Some(true), None),
                        true,
                    )
                } else {
                    &&& final(self).sockets() == old(self).sockets()
                    &&& r@.len() == 0
                }
            },
            msg matches EventLoopMessage::Close(t, reason) ==> {
                if old(self).sockets().dom().contains(t) {
                    let s = old(self).sockets()[t];
                    &&& final(self).sockets() == old(self).sockets().insert(t, final(self).sockets()[t])
                    &&& s@.shutting_down ==> {
                        &&& socket_moved_to(s, final(self).sockets()[t], s@)
                        &&& r@.len() == 0
                    }
                    &&& !s@.shutting_down ==> {
                        &&& socket_moved_to(s, final(self).sockets()[t], shut_down(s@))
                        &&& r@ == seq![
                            LoopAction::<H>::Shutdown(
                                ShutdownRequest {
                                    token: t,
                                    deregister: s@.registered,
                                    message: EventLoopMessage::EndShutdown(t, reason),
                                },
                            ),
                        ]
                    }
                } else {
                    &&& final(self).sockets() == old(self).sockets()
                    &&& r@.len() == 0
                }
            },
    {
        let mut actions: Vec<LoopAction<H>> = Vec::new();
        match msg {
            EventLoopMessage::NewConnection(stream) => {
                let token = self.insert_socket(stream);
                let handler = self.handler.clone();
                let conn = self.get_connection(token, sender);
                actions.push(LoopAction::NewConnection { handler, conn });
            },
            EventLoopMessage::Write(token) => {
                if self.sockets.contains(token) {
                    let socket = self.socket_mut(token);
                    let reg = socket.set_write_readiness(true);
                    push_registration(&mut actions, reg, true);
                }
            },
            EventLoopMessage::ContinueWrite(token, index, buf) => {
                if self.sockets.contains(token) {
                    let socket = self.socket_mut(token);
                    let reg = socket.continue_writing(index, buf);
                    push_registration(&mut actions, reg, false);
                }
            },
            EventLoopMessage::EndShutdown(token, reason) => {
                let _removed = self.sockets.remove(token);
                actions.push(LoopAction::ConnectionEnded { id: token, reason });
            },
            EventLoopMessage::Read(token, buf) => {
                if self.sockets.contains(token) {
                    let socket = self.socket_mut(token);
                    socket.keep_unread(buf);
                    let reg = socket.set_read_readiness(true);
                    push_registration(&mut actions, reg, true);
                }
            },
            EventLoopMessage::Close(token, reason) => {
                if self.sockets.contains(token) {
                    let socket = self.socket_mut(token);
                    if let Some(req) = socket.start_shutdown(reason) {
                        actions.push(LoopAction::Shutdown(req));
                    }
                }
            },
        }
        actions
    }

    /// Decides on a readiness event of the socket under `token`. A hang-up
    /// starts shutting the socket down, and nothing else. Otherwise, when
    /// writable, the socket stops asking for write readiness and its frames
    /// are written on the pool; then, when readable, it stops asking for read
    /// readiness and it is read on the pool. Events of a token no longer
    /// stored are ignored.
    pub fn ready(&mut self, token: usize, events: EventSet, sender: &mio::Sender<EventLoopMessage>)
        -> (r: Vec<LoopAction<H>>)
        requires
            old(self).wf(),
            events.hup ==> old(self).sockets().dom().contains(token),
            events.hup || !events.error,
        ensures
            final(self).wf(),
            final(self).spec_handler() == old(self).spec_handler(),
            events.hup ==> {
                let s = old(self).sockets()[token];
                &&& final(self).sockets() == old(self).sockets().insert(token, final(self).sockets()[token])
                &&& s@.shutting_down ==> {
                    &&& socket_moved_to(s, final(self).sockets()[token], s@)
                    &&& r@.len() == 0
                }
                &&& !s@.shutting_down ==> {
                    &&& socket_moved_to(s, final(self).sockets()[token], shut_down(s@))
                    &&& r@ == seq![
                        LoopAction::<H>::Shutdown(
                            ShutdownRequest {
                                token,
                                deregister: s@.registered,
                                message: EventLoopMessage::EndShutdown(
                                    token,
                                    ConnectionEndedReason::Hangup,
                                ),
                            },
                        ),
                    ]
                }
            },
            !events.hup && !old(self).sockets().dom().contains(token) ==> {
                &&& final(self).sockets() == old(self).sockets()
                &&& r@.len() == 0
            },
            !events.hup && old(self).sockets().dom().contains(token) ==> {
                let s = old(self).sockets()[token];
                let after_write = if events.writable {
                    with_readiness(s@, None, Some(false))
                } else {
                    s@
                };
                let wr = registration_actions::<H>(readiness_registration(s@, None, Some(false)), true);
                let rr = registration_actions::<H>(
                    readiness_registration(after_write, Some(false), None),
                    true,
                );
                let nw: int = if events.writable { wr.len() + 1int } else { 0int };
                &&& final(self).sockets() == old(self).sockets().insert(token, final(self).sockets()[token])
                &&& socket_moved_to(s, final(self).sockets()[token], state_after_ready(s@, events))
                &&& r@.len() == nw + (if events.readable { rr.len() + 1int } else { 0int })
                &&& events.writable ==> (r@[wr.len() as int] matches LoopAction::Write {
                    token: wt,
                    writer,
                    ..
                } && wt == token && writer.pending() == s@.write_buf)
                &&& events.writable ==> r@.subrange(0, wr.len() as int) == wr && is_write_action(
                    r@[wr.len() as int],
                    token,
                    s,
                )
                &&& events.readable ==> r@.subrange(nw, nw + rr.len()) == rr && is_read_action(
                    r@[nw + rr.len()],
                    token,
                    s,
                )
            },
    {
        let mut actions: Vec<LoopAction<H>> = Vec::new();
        if events.is_hup() {
            let socket = self.socket_mut(token);
            if let Some(req) = socket.start_shutdown(ConnectionEndedReason::Hangup) {
                actions.push(LoopAction::Shutdown(req));
            }
            return actions;
        }
        if events.is_writable() && self.sockets.contains(token) {
            let socket = self.socket_mut(token);
            let reg = socket.set_write_readiness(false);
            let writer = socket.get_socket_writer();
            push_registration(&mut actions, reg, true);
            let handler = self.handler.clone();
            actions.push(LoopAction::Write { token, handler, writer });
        }
        if events.is_readable() && self.sockets.contains(token) {
            let socket = self.socket_mut(token);
            let reg = socket.set_read_readiness(false);
            let reader = socket.get_socket_reader();
            push_registration(&mut actions, reg, true);
            let handler = self.handler.clone();
            let socket = self.sockets.get(token).unwrap();
            let conn = Connection::new(clone_sender(sender), token, socket.get_write_buf());
            actions.push(LoopAction::Read { token, handler, reader, conn });
        }
        actions
    }

    /// Takes note of how a registration decided here went: when it failed,
    /// a first registration is undone, so that the socket counts as never
    /// registered (the next registration is a first one again, and a
    /// shutdown does not deregister it).
    pub fn registration_done(&mut self, registration: Registration, succeeded: bool)
        requires
            old(self).wf(),
        ensures
            final(self).wf(),
            final(self).spec_handler() == old(self).spec_handler(),
            (succeeded || !old(self).sockets().dom().contains(registration.token))
                ==> final(self).sockets() == old(self).sockets(),
            !succeeded && old(self).sockets().dom().contains(registration.token) ==> {
                let t = registration.token;
                let s = old(self).sockets()[t];
                &&& final(self).sockets() == old(self).sockets().insert(t, final(self).sockets()[t])
                &&& socket_moved_to(
                    s,
                    final(self).sockets()[t],
                    after_failed_registration(s@, registration),
                )
            },
    {
        if !succeeded && self.sockets.contains(registration.token) {
            let socket = self.socket_mut(registration.token);
            socket.registration_failed(registration);
        }
    }

    /// Stores a socket for `stream` under a free token, which it returns.
    fn insert_socket(&mut self, stream: S) -> (token: usize)
        requires
            old(self).wf(),
            old(self).sockets().len() < MAX_CONNECTIONS,
        ensures
            final(self).wf(),
            final(self).spec_handler() == old(self).spec_handler(),
            !old(self).sockets().dom().contains(token),
            old(self).next_token() == Some(token),
            final(self).sockets() == old(self).sockets().insert(token, final(self).sockets()[token]),
            final(self).sockets()[token]@ == fresh_state(token),
            final(self).sockets()[token].spec_stream() == stream,
    {
        let token: usize = match self.sockets.vacant_key() {
            Some(k) => k,
            None => vstd::pervasive::unreached(),
        };
        let _inserted = self.sockets.insert(Socket::new(stream, token));
        token
    }

    /// The socket stored under `token`, to change it in place.
    fn socket_mut(&mut self, token: usize) -> (s: &mut Socket<H::Frame, S>)
        requires
            old(self).wf(),
            old(self).sockets().dom().contains(token),
        ensures
            *s == old(self).sockets()[token],
            final(self).sockets() == old(self).sockets().insert(token, *final(s)),
            final(self).spec_handler() == old(self).spec_handler(),
            final(s)@.token == token ==> final(self).wf(),
    {
        match self.sockets.get_mut(token) {
            Some(s) => s,
            None => vstd::pervasive::unreached(),
        }
    }
}

/// What the event loop is told once the handler's `new_connection` returned
/// for the connection `token`: that the connection is ready for its first
/// read, or, after an error, to close it.
pub fn new_connection_message<E>(token: usize, result: Result<(), E>) -> (m: EventLoopMessage)
    ensures
        result is Ok ==> (m matches EventLoopMessage::Read(t, b) && t == token && b@ == Seq::<
            u8,
        >::empty()),
        result is Err ==> m == EventLoopMessage::<mio::tcp::TcpStream>::Close(
            token,
            ConnectionEndedReason::HandlerError,
        ),
{
    match result {
        Ok(()) => EventLoopMessage::Read(token, Vec::new()),
        Err(_) => EventLoopMessage::Close(token, ConnectionEndedReason::HandlerError),
    }
}

/// Runs the handler's `new_connection` on a new connection, on a worker
/// thread, and gives what the event loop is to be told: that the connection
/// is ready for its first read when `new_connection` accepted it, or to close
/// it when `new_connection` returned an error.
pub fn new_connection_task<H: Handler>(handler: &H, conn: Connection<H>) -> (m: EventLoopMessage)
    ensures
        (m matches EventLoopMessage::Read(t, b) && t == conn.id() && b@ == Seq::<u8>::empty()) || m
            == EventLoopMessage::<mio::tcp::TcpStream>::Close(
            conn.id(),
            ConnectionEndedReason::HandlerError,
        ),
        exists|result: Result<(), H::Error>| #[trigger]
            call_ensures(H::new_connection, (handler, conn), result) && new_connection_outcome(
                conn.id(),
                result,
                m,
            ),
{
    let token = conn.get_id();
    let ghost c = conn;
    let result = handler.new_connection(conn);
    let ghost res = result;
    assert(call_ensures(H::new_connection, (handler, c), res));
    let m = new_connection_message(token, result);
    assert(new_connection_outcome(c.id(), res, m));
    m
}

/// Whether `m` is what the event loop is told for connection `id` after
/// `new_connection` returned `result`: the first `Read`, with no bytes, when
/// it accepted the connection; `Close` with `HandlerError` when it refused it.
pub open spec fn new_connection_outcome<E>(id: usize, result: Result<(), E>, m: EventLoopMessage) -> bool {
    &&& result is Ok ==> (m matches EventLoopMessage::Read(t, b) && t == id && b@ == Seq::<u8>::empty())
    &&& result is Err ==> m == EventLoopMessage::<mio::tcp::TcpStream>::Close(
        id,
        ConnectionEndedReason::HandlerError,
    )
}

/// A connection is served exactly when the handler's `new_connection`
/// accepts it: whatever `new_connection_task` answers is tied to what
/// `new_connection` returned for that connection, a first `Read` with no
/// bytes on success and `Close(HandlerError)` on an error.
pub proof fn lemma_new_connection_decides<H: Handler>(
    handler: &H,
    conn: Connection<H>,
    m: EventLoopMessage,
)
    requires
        call_ensures(new_connection_task::<H>, (handler, conn), m),
    ensures
        exists|result: Result<(), H::Error>| #[trigger]
            call_ensures(H::new_connection, (handler, conn), result) && (result is Ok ==> (m matches EventLoopMessage::Read(t, b) && t == conn.id() && b@.len() == 0)) && (result is Err ==> m == EventLoopMessage::<mio::tcp::TcpStream>::Close(conn.id(), ConnectionEndedReason::HandlerError)),
{
}

/// Appends the action a registration request, if any, leads to.
fn push_registration<H: Handler>(
    actions: &mut Vec<LoopAction<H>>,
    reg: Option<Registration>,
    must_succeed: bool,
)
    ensures
        final(actions)@ == old(actions)@ + registration_actions::<H>(reg, must_succeed),
{
    if let Some(registration) = reg {
        actions.push(LoopAction::Register { registration, must_succeed });
    }
    proof {
        if reg is None {
            assert(final(actions)@ =~= old(actions)@ + registration_actions::<H>(reg, must_succeed));
        }
    }
}

/// Each live connection has its own id: the sockets stored under two
/// different tokens are named by different tokens.
pub proof fn lemma_ids_unique<H: Handler, S>(c: ClientHandler<H, S>, k1: usize, k2: usize)
    requires
        c.wf(),
        c.sockets().dom().contains(k1),
        c.sockets().dom().contains(k2),
        k1 != k2,
    ensures
        c.sockets()[k1]@.token != c.sockets()[k2]@.token,
{
}

/// While a socket is being read on the pool it asks for no read readiness,
/// and while it is being written it asks for no write readiness; so one
/// worker at a time reads it, and frames are handled one after another.
pub proof fn lemma_one_worker_at_a_time(s: SocketState, events: EventSet)
    ensures
        events.readable ==> !state_after_ready(s, events).read_ready,
        events.writable ==> !state_after_ready(s, events).write_ready,
        state_after_ready(s, events).token == s.token,
        state_after_ready(s, events).shutting_down == s.shutting_down,
{
}

/// The socket stored under a token is named by that token: the id a
/// connection reports is the key it is stored under.
pub proof fn lemma_token_matches_key<H: Handler, S>(c: ClientHandler<H, S>, k: usize)
    requires
        c.wf(),
        c.sockets().dom().contains(k),
    ensures
        c.sockets()[k]@.token == k,
{
}

/// No frame of a connection is read before the handler's `new_connection`
/// returned: a new socket asks for no read readiness and is not registered,
/// and only a `Read` message (which `new_connection_message` gives once
/// `new_connection` returned) turns read readiness on; no other change of a
/// socket's state does.
pub proof fn lemma_reading_waits_for_read_message(
    s: SocketState,
    token: usize,
    write: Option<bool>,
    index: usize,
    buf: Vec<u8>,
    reg: Registration,
    events: EventSet,
)
    ensures
        !fresh_state(token).read_ready,
        !fresh_state(token).registered,
        !interest(fresh_state(token)).readable,
        with_readiness(s, None, write).read_ready == s.read_ready,
        with_pending_write(s, index, buf).read_ready == s.read_ready,
        with_read_buf(s, buf).read_ready == s.read_ready,
        shut_down(s).read_ready == s.read_ready,
        after_failed_registration(s, reg).read_ready == s.read_ready,
        !s.read_ready ==> !state_after_ready(s, events).read_ready,
{
}

/// The bytes a reader could not decode go to the next reader of the
/// connection, in order: a `Read` message keeps them, and the next readable
/// event hands exactly them over and leaves none behind.
pub proof fn lemma_unread_bytes_carried_over(s: SocketState, buf: Vec<u8>, events: EventSet)
    ensures
        unread(with_readiness(with_read_buf(s, buf), Some(true), None)) == buf@,
        events.readable ==> unread(state_after_ready(s, events)) == Seq::<u8>::empty(),
        !events.readable ==> unread(state_after_ready(s, events)) == unread(s),
{
}

/// A socket keeps a partly written buffer until the next writable event
/// hands it to the writer: a `ContinueWrite` keeps exactly its bytes and the count already
/// written, and asks for write readiness; the next writable event hands
/// that buffer off to the writer and leaves none behind in the socket,
/// while other events keep it; and a socket that stops asking for write
/// readiness no longer asks for it.
pub proof fn lemma_partial_write_handed_to_writer(
    s: SocketState,
    index: usize,
    buf: Vec<u8>,
    events: EventSet,
)
    ensures
        with_readiness(with_pending_write(s, index, buf), None, Some(true)).write_buf == Some(
            (index, buf),
        ),
        with_readiness(with_pending_write(s, index, buf), None, Some(true)).write_ready,
        events.writable ==> state_after_ready(s, events).write_buf is None,
        !events.writable ==> state_after_ready(s, events).write_buf == s.write_buf,
        !with_readiness(s, None, Some(false)).write_ready,
{
}

/// What happens to one connection, as the event loop decides on it: the
/// readiness events the loop reports and the messages it gets. Each changes
/// the socket's state as `ready` and `notify` state it.
pub enum ConnectionEvent {
    /// A readiness event the loop reports (`ready`).
    Ready(EventSet),
    /// `new_connection` returned: its `Read` message.
    Connected(Vec<u8>),
    /// A reader job stopped: its `Read` message, with the bytes it kept.
    ReaderDone(Vec<u8>),
    /// Frames were queued: `Write`.
    WriteQueued,
    /// A writer stopped part way: `ContinueWrite`.
    WriteStopped(usize, Vec<u8>),
    /// A registration failed (`registration_done`).
    RegistrationFailed(Registration),
    /// The connection is to close: `Close`.
    CloseRequested,
}

/// Where reading one connection stands: its socket's state, whether its
/// `new_connection` is still running, and how many reader jobs run.
pub type ReadingState = (SocketState, bool, nat);

/// A new connection: a fresh socket, `new_connection` running, no reader.
pub open spec fn connection_start(token: usize) -> ReadingState {
    (fresh_state(token), true, 0)
}

/// Whether `e` can happen in `c`: the loop reports a readable socket only
/// while the socket asks for read readiness; `new_connection` returns once;
/// a reader job stops only when one runs.
pub open spec fn event_possible(c: ReadingState, e: ConnectionEvent) -> bool {
    match e {
        ConnectionEvent::Ready(ev) => ev.readable && !ev.hup ==> c.0.read_ready,
        ConnectionEvent::Connected(_) => c.1,
        ConnectionEvent::ReaderDone(_) => c.2 > 0,
        _ => true,
    }
}

/// The state after `e`: the socket changes as `ready` and `notify` state;
/// a readable event starts a reader job, `Connected` ends `new_connection`,
/// and `ReaderDone` ends a reader job.
pub open spec fn after_event(c: ReadingState, e: ConnectionEvent) -> ReadingState {
    let s = c.0;
    match e {
        ConnectionEvent::Ready(ev) => if ev.hup {
            (if s.shutting_down { s } else { shut_down(s) }, c.1, c.2)
        } else {
            (state_after_ready(s, ev), c.1, if ev.readable { c.2 + 1 } else { c.2 })
        },
        ConnectionEvent::Connected(b) => (
            with_readiness(with_read_buf(s, b), Some(true), None),
            false,
            c.2,
        ),
        ConnectionEvent::ReaderDone(b) => (
            with_readiness(with_read_buf(s, b), Some(true), None),
            c.1,
            (c.2 - 1) as nat,
        ),
        ConnectionEvent::WriteQueued => (with_readiness(s, None, Some(true)), c.1, c.2),
        ConnectionEvent::WriteStopped(i, b) => (
            with_readiness(with_pending_write(s, i, b), None, Some(true)),
            c.1,
            c.2,
        ),
        ConnectionEvent::RegistrationFailed(reg) => (after_failed_registration(s, reg), c.1, c.2),
        ConnectionEvent::CloseRequested => (
            if s.shutting_down { s } else { shut_down(s) },
            c.1,
            c.2,
        ),
    }
}

/// The state after the events `es`, in order.
pub open spec fn after_events(c: ReadingState, es: Seq<ConnectionEvent>) -> ReadingState
    decreases es.len(),
{
    if es.len() == 0 {
        c
    } else {
        after_event(after_events(c, es.drop_last()), es.last())
    }
}

/// Whether every event of `es` can happen where it comes.
pub open spec fn events_possible(c: ReadingState, es: Seq<ConnectionEvent>) -> bool
    decreases es.len(),
{
    if es.len() == 0 {
        true
    } else {
        events_possible(c, es.drop_last()) && event_possible(
            after_events(c, es.drop_last()),
            es.last(),
        )
    }
}

/// Exactly one of these holds at any time: `new_connection` runs, the socket
/// asks for read readiness, or one reader job runs.
pub open spec fn one_read_turn(c: ReadingState) -> bool {
    (if c.1 { 1int } else { 0int }) + (if c.0.read_ready { 1int } else { 0int }) + c.2 == 1
}

/// Reading a connection goes one turn at a time: whatever happens to it, no
/// reader job runs while `new_connection` runs (no frame is read before it
/// returns), and at most one reader job runs at once (frames are decoded and
/// handled one after another, in the order received).
pub proof fn lemma_one_reader_at_a_time(token: usize, es: Seq<ConnectionEvent>)
    requires
        events_possible(connection_start(token), es),
    ensures
        one_read_turn(after_events(connection_start(token), es)),
        after_events(connection_start(token), es).2 <= 1,
        after_events(connection_start(token), es).1 ==> after_events(connection_start(token), es).2
            == 0,
    decreases es.len(),
{
    if es.len() > 0 {
        lemma_one_reader_at_a_time(token, es.drop_last());
    }
}

} // verus!
