use vstd::prelude::*;
use crate::handler::Handler;

verus! {

/// A server for the protocol of `handler`.
pub struct Server<H> {
    handler: H,
}

impl<H: Handler> Server<H> {
    /// The handler of the server's protocol.
    pub closed spec fn spec_handler(&self) -> H {
        self.handler
    }

    pub fn new(handler: H) -> (s: Server<H>)
        ensures
            s.spec_handler() == handler,
    {
        Server { handler }
    }

    /// The handler, to run the server with.
    pub fn into_handler(self) -> (h: H)
        ensures
            h == self.spec_handler(),
    {
        self.handler
    }
}

} // verus!
