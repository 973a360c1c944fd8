//! The per-frame decisions of the browser terminal's render loop: input
//! waits in one buffer until the next frame parses it in a single pass, and
//! a frame is painted only when something changed or the bell is fading.
use vstd::prelude::*;

verus! {

/// The render loop's state.
pub struct FrameState {
    pending: Vec<u8>,
    dirty: bool,
    focused: bool,
    frame_seq: u64,
}

impl FrameState {
    /// Bytes fed but not yet parsed.
    pub closed spec fn pending_spec(&self) -> Seq<u8> {
        self.pending@
    }

    /// Whether the next frame must be painted.
    pub closed spec fn dirty_spec(&self) -> bool {
        self.dirty
    }

    /// Whether the canvas has keyboard focus.
    pub closed spec fn focused_spec(&self) -> bool {
        self.focused
    }

    /// Frames painted so far, modulo 2^64.
    pub closed spec fn seq_spec(&self) -> u64 {
        self.frame_seq
    }

    /// A new terminal: nothing pending, focused, first frame to be painted.
    pub fn new() -> (s: Self)
        ensures
            s.pending_spec().len() == 0,
            s.dirty_spec(),
            s.focused_spec(),
            s.seq_spec() == 0,
    {
        FrameState { pending: Vec::new(), dirty: true, focused: true, frame_seq: 0 }
    }

    /// Feed bytes for the next frame to parse, after those already waiting.
    pub fn feed(&mut self, data: &[u8])
        ensures
            final(self).pending_spec() == old(self).pending_spec() + data@,
            final(self).dirty_spec(),
            final(self).focused_spec() == old(self).focused_spec(),
            final(self).seq_spec() == old(self).seq_spec(),
    {
        let ghost before = self.pending@;
        let mut i: usize = 0;
        while i < data.len()
            invariant
                i <= data@.len(),
                self.pending@ == before + data@.subrange(0, i as int),
                self.focused == old(self).focused,
                self.frame_seq == old(self).frame_seq,
            decreases data@.len() - i,
        {
            self.pending.push(data[i]);
            i = i + 1;
            assert(self.pending@ =~= before + data@.subrange(0, i as int));
        }
        assert(data@.subrange(0, data@.len() as int) =~= data@);
        self.dirty = true;
    }

    /// Queue chunks that arrived from the PTY, in order, ahead of the bytes
    /// fed locally: a frame parses the socket's output before local input.
    pub fn queue_chunks(&mut self, chunks: &Vec<Vec<u8>>)
        ensures
            final(self).pending_spec() == chunks@.map_values(|c: Vec<u8>| c@).flatten()
                + old(self).pending_spec(),
            final(self).dirty_spec() == old(self).dirty_spec(),
            final(self).focused_spec() == old(self).focused_spec(),
            final(self).seq_spec() == old(self).seq_spec(),
    {
        let ghost views = chunks@.map_values(|c: Vec<u8>| c@);
        let mut incoming: Vec<u8> = Vec::new();
        let mut k: usize = 0;
        while k < chunks.len()
            invariant
                k <= chunks@.len(),
                views == chunks@.map_values(|c: Vec<u8>| c@),
                incoming@ == views.subrange(0, k as int).flatten(),
            decreases chunks@.len() - k,
        {
            let chunk = &chunks[k];
            let ghost mid = incoming@;
            let mut i: usize = 0;
            while i < chunk.len()
                invariant
                    i <= chunk@.len(),
                    incoming@ == mid + chunk@.subrange(0, i as int),
                decreases chunk@.len() - i,
            {
                incoming.push(chunk[i]);
                i = i + 1;
                assert(incoming@ =~= mid + chunk@.subrange(0, i as int));
            }
            proof {
                assert(chunk@.subrange(0, chunk@.len() as int) =~= chunk@);
                let pre = views.subrange(0, k as int);
                assert(views.subrange(0, k + 1) =~= pre.push(chunk@));
                pre.lemma_flatten_push(chunk@);
                assert(incoming@ =~= views.subrange(0, k + 1).flatten());
            }
            k = k + 1;
        }
        assert(views.subrange(0, chunks@.len() as int) =~= views);
        let ghost before = self.pending@;
        let ghost head = incoming@;
        let mut j: usize = 0;
        let n = self.pending.len();
        while j < n
            invariant
                n == before.len(),
                j <= n,
                self.pending@ == before,
                incoming@ == head + before.subrange(0, j as int),
                self.focused == old(self).focused,
                self.frame_seq == old(self).frame_seq,
                self.dirty == old(self).dirty,
            decreases n - j,
        {
            incoming.push(self.pending[j]);
            j = j + 1;
            assert(incoming@ =~= head + before.subrange(0, j as int));
        }
        assert(before.subrange(0, n as int) =~= before);
        self.pending = incoming;
    }

    /// Take the bytes waiting to be parsed. A frame that takes some must be
    /// painted.
    pub fn take_input(&mut self) -> (data: Vec<u8>)
        ensures
            data@ == old(self).pending_spec(),
            final(self).pending_spec().len() == 0,
            final(self).dirty_spec() == (old(self).dirty_spec() || old(self).pending_spec().len()
                > 0),
            final(self).focused_spec() == old(self).focused_spec(),
            final(self).seq_spec() == old(self).seq_spec(),
    {
        let mut data: Vec<u8> = Vec::new();
        std::mem::swap(&mut data, &mut self.pending);
        if data.len() > 0 {
            self.dirty = true;
        }
        data
    }

    /// Note that the next frame must be painted.
    pub fn mark_dirty(&mut self)
        ensures
            final(self).dirty_spec(),
            final(self).pending_spec() == old(self).pending_spec(),
            final(self).focused_spec() == old(self).focused_spec(),
            final(self).seq_spec() == old(self).seq_spec(),
    {
        self.dirty = true;
    }

    /// Record whether the canvas has focus; a change must be painted.
    pub fn set_focused(&mut self, focused: bool)
        ensures
            final(self).focused_spec() == focused,
            final(self).dirty_spec() == (old(self).dirty_spec() || old(self).focused_spec()
                != focused),
            final(self).pending_spec() == old(self).pending_spec(),
            final(self).seq_spec() == old(self).seq_spec(),
    {
        if self.focused != focused {
            self.focused = focused;
            self.dirty = true;
        }
    }

    /// Whether the canvas has keyboard focus.
    pub fn focused(&self) -> (f: bool)
        ensures
            f == self.focused_spec(),
    {
        self.focused
    }

    /// Whether to paint this frame: when something changed, and on every
    /// frame while the bell is fading so that the fade animates.
    pub fn should_render(&mut self, bell_active: bool) -> (paint: bool)
        ensures
            paint == (old(self).dirty_spec() || bell_active),
            final(self).dirty_spec() == paint,
            final(self).pending_spec() == old(self).pending_spec(),
            final(self).focused_spec() == old(self).focused_spec(),
            final(self).seq_spec() == old(self).seq_spec(),
    {
        if bell_active {
            self.dirty = true;
        }
        self.dirty
    }

    /// After painting a frame with the bell at `bell_level`: count the
    /// frame, and keep painting the next frame when this one showed the
    /// bell, so that the frame where it has faded is painted too. Returns
    /// whether to step the bell down.
    pub fn finish_render(&mut self, bell_level: u8) -> (decay: bool)
        ensures
            decay == (bell_level > 0),
            final(self).dirty_spec() == (bell_level > 0),
            final(self).seq_spec() == (if old(self).seq_spec() == u64::MAX {
                0
            } else {
                old(self).seq_spec() + 1
            }),
            final(self).pending_spec() == old(self).pending_spec(),
            final(self).focused_spec() == old(self).focused_spec(),
    {
        let was_bell_frame = bell_level > 0;
        self.dirty = was_bell_frame;
        self.frame_seq = if self.frame_seq == u64::MAX {
            0
        } else {
            self.frame_seq + 1
        };
        was_bell_frame
    }

    /// Number of fed-but-not-yet-parsed bytes, modulo 2^32.
    pub fn pending_bytes(&self) -> (n: u32)
        ensures
            n == self.pending_spec().len() as u32,
    {
        self.pending.len() as u32
    }

    /// Frames painted so far, modulo 2^32.
    pub fn frame_seq(&self) -> (n: u32)
        ensures
            n == self.seq_spec() as u32,
    {
        self.frame_seq as u32
    }
}

/// Feeding bytes in pieces and then taking them hands the parser the same
/// bytes as feeding them at once: along any run of states where each state
/// is the previous one after `feed` of the next piece, the bytes pending at
/// the end are those pending at the start followed by the pieces, in order,
/// with nothing lost or repeated.
pub proof fn law_batched_feed(states: Seq<FrameState>, pieces: Seq<Seq<u8>>)
    requires
        states.len() == pieces.len() + 1,
        forall|k: int|
            0 <= k < pieces.len() ==> (#[trigger] states[k + 1]).pending_spec()
                == states[k].pending_spec() + pieces[k],
    ensures
        states[pieces.len() as int].pending_spec() == states[0].pending_spec()
            + pieces.flatten(),
    decreases pieces.len(),
{
    if pieces.len() > 0 {
        let n = pieces.len() - 1;
        law_batched_feed(states.drop_last(), pieces.drop_last());
        assert(states.drop_last()[n].pending_spec() == states[0].pending_spec()
            + pieces.drop_last().flatten());
        pieces.drop_last().lemma_flatten_push(pieces.last());
        assert(pieces.drop_last().push(pieces.last()) =~= pieces);
        assert(states[n + 1].pending_spec() == states[n].pending_spec() + pieces[n]);
    } else {
        assert(pieces.flatten() =~= Seq::<u8>::empty());
    }
}

} // verus!
