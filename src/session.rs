use vstd::prelude::*;
use crate::codec::strings;

verus! {

/// Why an outbound frame was not taken.
#[derive(PartialEq, Eq, Structural, Clone, Copy, Debug)]
pub enum SendError {
    /// The connection is not open; the frame is dropped, not kept for later.
    SendDropped,
}

/// The send side of the one connection of a chat view: whether it is open, and
/// the frames handed over for transmission that the transport has not taken yet.
pub struct WebsocketService {
    pub endpoint: String,
    pub open: bool,
    pub outbox: Vec<String>,
}

impl WebsocketService {
    pub open spec fn pending(&self) -> Seq<Seq<char>> {
        strings(self.outbox@)
    }

    /// A session whose connection to `endpoint` has just opened, with nothing
    /// sent yet.
    pub fn open(endpoint: String) -> (r: WebsocketService)
        ensures
            r.endpoint == endpoint,
            r.open,
            r.pending() == Seq::<Seq<char>>::empty(),
    {
        let r = WebsocketService { endpoint, open: true, outbox: Vec::new() };
        assert(r.pending() =~= Seq::<Seq<char>>::empty());
        r
    }

    /// Whether the connection is open.
    pub fn is_open(&self) -> (r: bool)
        ensures
            r == self.open,
    {
        self.open
    }

    /// Hands `raw` over for transmission without waiting; drops it when the
    /// connection is not open.
    pub fn send(&mut self, raw: String) -> (r: Result<(), SendError>)
        ensures
            final(self).open == old(self).open,
            final(self).endpoint == old(self).endpoint,
            old(self).open ==> r is Ok && final(self).pending() == old(self).pending().push(raw@),
            !old(self).open ==> r == Err::<(), SendError>(SendError::SendDropped) && final(self).pending()
                == old(self).pending(),
    {
        if self.open {
            let ghost before = self.outbox@;
            self.outbox.push(raw);
            assert(strings(self.outbox@) =~= strings(before).push(raw@));
            Ok(())
        } else {
            Err(SendError::SendDropped)
        }
    }

    /// Records that the connection closed or failed; it is never opened again.
    pub fn close(&mut self)
        ensures
            !final(self).open,
            final(self).endpoint == old(self).endpoint,
            final(self).pending() == old(self).pending(),
    {
        self.open = false;
    }

    /// Takes the frames waiting for transmission, oldest first.
    pub fn take_outbox(&mut self) -> (r: Vec<String>)
        ensures
            strings(r@) == old(self).pending(),
            final(self).pending() == Seq::<Seq<char>>::empty(),
            final(self).open == old(self).open,
            final(self).endpoint == old(self).endpoint,
    {
        let mut r: Vec<String> = Vec::new();
        std::mem::swap(&mut r, &mut self.outbox);
        assert(strings(self.outbox@) =~= Seq::<Seq<char>>::empty());
        r
    }
}

} // verus!
