//! The browser side of the WebSocket: which messages go out now and which
//! wait for the socket to open, and which incoming frames carry PTY output.
use vstd::prelude::*;
use crate::protocol::{encode_data, encode_resize, le_bytes, MSG_DATA, MSG_EXIT, MSG_RESIZE};

verus! {

/// A message waiting to go out.
#[derive(Debug, PartialEq, Eq)]
pub enum Outgoing {
    /// A text frame (the authentication token).
    Text(String),
    /// A binary protocol frame.
    Binary(Vec<u8>),
}

/// The mathematical form of an outgoing message.
pub enum OutgoingModel {
    Text(Seq<char>),
    Binary(Seq<u8>),
}

impl View for Outgoing {
    type V = OutgoingModel;

    open spec fn view(&self) -> OutgoingModel {
        match self {
            Outgoing::Text(t) => OutgoingModel::Text(t@),
            Outgoing::Binary(b) => OutgoingModel::Binary(b@),
        }
    }
}

/// The models of a list of outgoing messages.
pub open spec fn models(v: Seq<Outgoing>) -> Seq<OutgoingModel> {
    v.map_values(|m: Outgoing| m@)
}

/// Outgoing messages of a connection that may not be open yet.
pub struct Outbox {
    pending: Vec<Outgoing>,
    flushed: bool,
}

impl Outbox {
    /// The messages waiting for the socket to open, oldest first.
    pub closed spec fn pending(&self) -> Seq<OutgoingModel> {
        models(self.pending@)
    }

    /// Whether the waiting messages were already sent once.
    pub closed spec fn flushed(&self) -> bool {
        self.flushed
    }

    /// Nothing waiting.
    pub fn new() -> (o: Self)
        ensures
            o.pending().len() == 0,
            !o.flushed(),
    {
        let o = Outbox { pending: Vec::new(), flushed: false };
        assert(o.pending() =~= Seq::<OutgoingModel>::empty());
        o
    }

    /// A connection that authenticates with `token`: the token waits as the
    /// first message, ahead of everything queued after it.
    pub fn with_token(token: String) -> (o: Self)
        ensures
            o.pending() == seq![OutgoingModel::Text(token@)],
            !o.flushed(),
    {
        let mut pending: Vec<Outgoing> = Vec::new();
        pending.push(Outgoing::Text(token));
        let o = Outbox { pending, flushed: false };
        assert(o.pending() =~= seq![OutgoingModel::Text(token@)]);
        o
    }

    /// Send a message now when the socket is open, else queue it. Returns
    /// the message to send now.
    pub fn send_or_queue(&mut self, msg: Vec<u8>, is_open: bool) -> (now: Option<Vec<u8>>)
        ensures
            final(self).flushed() == old(self).flushed(),
            is_open ==> now == Some(msg) && final(self).pending() == old(self).pending(),
            !is_open ==> now is None && final(self).pending() == old(self).pending().push(
                OutgoingModel::Binary(msg@),
            ),
    {
        if is_open {
            Some(msg)
        } else {
            let ghost before = self.pending@;
            let ghost m = msg@;
            self.pending.push(Outgoing::Binary(msg));
            proof {
                assert(models(self.pending@) =~= models(before).push(OutgoingModel::Binary(m)));
            }
            None
        }
    }

    /// Once the socket is open, hand out everything that waited for it, in
    /// the order it was queued; this happens once per connection.
    pub fn flush_pending(&mut self, is_open: bool) -> (out: Vec<Outgoing>)
        ensures
            if old(self).flushed() || !is_open {
                &&& models(out@).len() == 0
                &&& final(self).pending() == old(self).pending()
                &&& final(self).flushed() == old(self).flushed()
            } else {
                &&& models(out@) == old(self).pending()
                &&& final(self).pending().len() == 0
                &&& final(self).flushed()
            },
    {
        if self.flushed || !is_open {
            let out: Vec<Outgoing> = Vec::new();
            assert(models(out@) =~= Seq::<OutgoingModel>::empty());
            return out;
        }
        self.flushed = true;
        let mut out: Vec<Outgoing> = Vec::new();
        std::mem::swap(&mut out, &mut self.pending);
        assert(models(self.pending@) =~= Seq::<OutgoingModel>::empty());
        out
    }

    /// Send PTY data: the data tag followed by the bytes.
    pub fn send_pty_data(&mut self, data: &[u8], is_open: bool) -> (now: Option<Vec<u8>>)
        ensures
            final(self).flushed() == old(self).flushed(),
            is_open ==> (now matches Some(m) && m@ == seq![MSG_DATA] + data@),
            is_open ==> final(self).pending() == old(self).pending(),
            !is_open ==> now is None && final(self).pending() == old(self).pending().push(
                OutgoingModel::Binary(seq![MSG_DATA] + data@),
            ),
    {
        let msg = encode_data(data);
        self.send_or_queue(msg, is_open)
    }

    /// Send a resize: the resize tag followed by the four values as
    /// little-endian u16.
    pub fn send_resize(
        &mut self,
        cols: u16,
        rows: u16,
        cell_w: u16,
        cell_h: u16,
        is_open: bool,
    ) -> (now: Option<Vec<u8>>)
        ensures
            final(self).flushed() == old(self).flushed(),
            ({
                let m = seq![MSG_RESIZE] + le_bytes(cols) + le_bytes(rows) + le_bytes(cell_w)
                    + le_bytes(cell_h);
                &&& is_open ==> (now matches Some(x) && x@ == m)
                &&& is_open ==> final(self).pending() == old(self).pending()
                &&& !is_open ==> now is None && final(self).pending() == old(self).pending().push(
                    OutgoingModel::Binary(m),
                )
            }),
    {
        let msg = encode_resize(cols, rows, cell_w, cell_h);
        self.send_or_queue(msg, is_open)
    }
}

/// The PTY output a frame from the server carries: the bytes after the data
/// tag of a data frame with at least one byte of output. Empty data frames,
/// exit notices and anything else carry none.
pub open spec fn server_payload_spec(frame: Seq<u8>) -> Option<Seq<u8>> {
    if frame.len() > 1 && frame[0] == MSG_DATA {
        Some(frame.drop_first())
    } else {
        None
    }
}

/// Extract the PTY output from a frame the server sent.
pub fn server_payload(frame: &[u8]) -> (p: Option<Vec<u8>>)
    ensures
        match p {
            Some(v) => server_payload_spec(frame@) == Some(v@),
            None => server_payload_spec(frame@) is None,
        },
{
    if frame.len() > 1 && frame[0] == MSG_DATA {
        let mut out: Vec<u8> = Vec::with_capacity(frame.len() - 1);
        let mut i: usize = 1;
        while i < frame.len()
            invariant
                1 <= i <= frame@.len(),
                out@ == frame@.subrange(1, i as int),
            decreases frame@.len() - i,
        {
            out.push(frame[i]);
            i = i + 1;
        }
        assert(out@ =~= frame@.drop_first());
        Some(out)
    } else {
        None
    }
}

/// Binary messages for a list of frames, in order.
pub open spec fn binaries(msgs: Seq<Seq<u8>>) -> Seq<OutgoingModel> {
    msgs.map_values(|m: Seq<u8>| OutgoingModel::Binary(m))
}

/// The token of an authenticating connection leaves first: along any run of
/// states that starts with the token waiting alone and where each state is
/// the previous one after queueing the next frame while the socket is
/// closed, the waiting messages are the token followed by the frames, in
/// the order they were queued. Flushing hands them out in that order.
pub proof fn law_token_first(states: Seq<Outbox>, msgs: Seq<Seq<u8>>, token: Seq<char>)
    requires
        states.len() == msgs.len() + 1,
        states[0].pending() == seq![OutgoingModel::Text(token)],
        forall|k: int|
            0 <= k < msgs.len() ==> (#[trigger] states[k + 1]).pending() == states[k].pending().push(
                OutgoingModel::Binary(msgs[k]),
            ),
    ensures
        states[msgs.len() as int].pending() == seq![OutgoingModel::Text(token)] + binaries(msgs),
    decreases msgs.len(),
{
    if msgs.len() > 0 {
        let n = msgs.len() - 1;
        law_token_first(states.drop_last(), msgs.drop_last(), token);
        assert(states.drop_last()[n].pending() == seq![OutgoingModel::Text(token)] + binaries(
            msgs.drop_last(),
        ));
        assert(states[n + 1].pending() == states[n].pending().push(OutgoingModel::Binary(msgs[n])));
        assert(binaries(msgs) =~= binaries(msgs.drop_last()).push(OutgoingModel::Binary(msgs[n])));
        assert(states[n + 1].pending() =~= seq![OutgoingModel::Text(token)] + binaries(msgs));
    } else {
        assert(binaries(msgs) =~= Seq::<OutgoingModel>::empty());
        assert(states[0].pending() =~= seq![OutgoingModel::Text(token)] + binaries(msgs));
    }
}

/// What the server sends reaches the terminal unchanged: a data frame
/// built from a non-empty payload yields exactly that payload, an empty
/// one yields nothing, and an exit notice is never taken for output.
pub proof fn law_server_data_roundtrip(payload: Seq<u8>, exit_tail: Seq<u8>)
    ensures
        server_payload_spec(seq![MSG_DATA] + payload) == if payload.len() > 0 {
            Some(payload)
        } else {
            None::<Seq<u8>>
        },
        server_payload_spec(seq![MSG_EXIT] + exit_tail) is None,
{
    assert((seq![MSG_DATA] + payload).drop_first() =~= payload);
    assert((seq![MSG_EXIT] + exit_tail)[0] == MSG_EXIT);
}

} // verus!
