//! What the browser terminal remembers of the events its terminal emulator
//! reports: the window title, the visual bell, and the queues of clipboard
//! requests, replies to write back to the PTY and colour queries that the
//! render loop drains.
use vstd::prelude::*;

verus! {

/// The bell counter's peak. A bell sets the counter to it; the render loop
/// lowers it by one each frame, so a bell flashes for this many frames and
/// further bells restart the flash rather than pile up.
pub const BELL_DECAY_MAX: u8 = 4;

/// An event reported by the terminal emulator.
#[derive(Debug)]
pub enum TermEvent {
    /// The terminal content changed.
    Wakeup,
    /// The shell set the window title (OSC 0/2).
    Title(String),
    /// The shell reset the window title.
    ResetTitle,
    /// The shell rang the bell (BEL).
    Bell,
    /// The shell asked to store text in the clipboard (OSC 52).
    ClipboardStore(String),
    /// The shell asked to read the clipboard (OSC 52).
    ClipboardLoad,
    /// Text the terminal wants written back to the PTY.
    PtyWrite(String),
    /// The shell asked for the colour of a palette slot (OSC 4/10/11/12).
    ColorRequest(usize),
    /// Any other event; the browser terminal ignores it.
    Other,
}

/// A pending clipboard request.
#[derive(Debug, PartialEq, Eq)]
pub enum ClipboardEvent {
    /// Store text to the system clipboard.
    Store(String),
    /// Load clipboard contents.
    Load,
}

/// The event state of a browser terminal.
pub struct EventState {
    clipboard_events: Vec<ClipboardEvent>,
    pty_writes: Vec<String>,
    title: Option<String>,
    bell_decay: u8,
    color_requests: Vec<usize>,
}

impl EventState {
    /// Pending clipboard requests, oldest first.
    pub closed spec fn clipboard(&self) -> Seq<ClipboardEvent> {
        self.clipboard_events@
    }

    /// Pending PTY writes, oldest first.
    pub closed spec fn writes(&self) -> Seq<String> {
        self.pty_writes@
    }

    /// The latest title.
    pub closed spec fn title_spec(&self) -> Option<String> {
        self.title
    }

    /// The bell counter.
    pub closed spec fn bell(&self) -> u8 {
        self.bell_decay
    }

    /// Pending colour queries, oldest first.
    pub closed spec fn colors(&self) -> Seq<usize> {
        self.color_requests@
    }

    /// The bell counter never exceeds its peak.
    pub closed spec fn wf(&self) -> bool {
        self.bell_decay <= BELL_DECAY_MAX
    }

    /// No title, no bell and nothing queued.
    pub fn new() -> (s: Self)
        ensures
            s.wf(),
            s.clipboard().len() == 0,
            s.writes().len() == 0,
            s.title_spec() is None,
            s.bell() == 0,
            s.colors().len() == 0,
    {
        EventState {
            clipboard_events: Vec::new(),
            pty_writes: Vec::new(),
            title: None,
            bell_decay: 0,
            color_requests: Vec::new(),
        }
    }

    /// Record an event: a title replaces the previous one and a reset clears
    /// it, a bell sets the bell counter to its peak, clipboard requests,
    /// PTY writes and colour queries join their queues, and other events
    /// change nothing.
    pub fn handle(&mut self, event: TermEvent)
        requires
            old(self).wf(),
        ensures
            final(self).wf(),
            final(self).title_spec() == match event {
                TermEvent::Title(t) => Some(t),
                TermEvent::ResetTitle => None,
                _ => old(self).title_spec(),
            },
            final(self).bell() == match event {
                TermEvent::Bell => BELL_DECAY_MAX,
                _ => old(self).bell(),
            },
            final(self).clipboard() == match event {
                TermEvent::ClipboardStore(text) => old(self).clipboard().push(
                    ClipboardEvent::Store(text),
                ),
                TermEvent::ClipboardLoad => old(self).clipboard().push(ClipboardEvent::Load),
                _ => old(self).clipboard(),
            },
            final(self).writes() == match event {
                TermEvent::PtyWrite(text) => old(self).writes().push(text),
                _ => old(self).writes(),
            },
            final(self).colors() == match event {
                TermEvent::ColorRequest(index) => old(self).colors().push(index),
                _ => old(self).colors(),
            },
    {
        match event {
            TermEvent::Title(title) => {
                self.title = Some(title);
            },
            TermEvent::ResetTitle => {
                self.title = None;
            },
            TermEvent::Bell => {
                self.bell_decay = BELL_DECAY_MAX;
            },
            TermEvent::ClipboardStore(text) => {
                self.clipboard_events.push(ClipboardEvent::Store(text));
            },
            TermEvent::ClipboardLoad => {
                self.clipboard_events.push(ClipboardEvent::Load);
            },
            TermEvent::PtyWrite(text) => {
                self.pty_writes.push(text);
            },
            TermEvent::ColorRequest(index) => {
                self.color_requests.push(index);
            },
            TermEvent::Wakeup | TermEvent::Other => {},
        }
    }

    /// Queue text to write to the PTY (such as the reply to a clipboard
    /// read that finished).
    pub fn push_pty_write(&mut self, text: String)
        ensures
            final(self).wf() == old(self).wf(),
            final(self).writes() == old(self).writes().push(text),
            final(self).clipboard() == old(self).clipboard(),
            final(self).title_spec() == old(self).title_spec(),
            final(self).bell() == old(self).bell(),
            final(self).colors() == old(self).colors(),
    {
        self.pty_writes.push(text);
    }

    /// Take every pending colour query, oldest first.
    pub fn drain_color_requests(&mut self) -> (out: Vec<usize>)
        ensures
            final(self).wf() == old(self).wf(),
            out@ == old(self).colors(),
            final(self).colors().len() == 0,
            final(self).clipboard() == old(self).clipboard(),
            final(self).writes() == old(self).writes(),
            final(self).title_spec() == old(self).title_spec(),
            final(self).bell() == old(self).bell(),
    {
        let mut out: Vec<usize> = Vec::new();
        std::mem::swap(&mut out, &mut self.color_requests);
        out
    }

    /// Take every pending clipboard request, oldest first.
    pub fn drain_clipboard_events(&mut self) -> (out: Vec<ClipboardEvent>)
        ensures
            final(self).wf() == old(self).wf(),
            out@ == old(self).clipboard(),
            final(self).clipboard().len() == 0,
            final(self).colors() == old(self).colors(),
            final(self).writes() == old(self).writes(),
            final(self).title_spec() == old(self).title_spec(),
            final(self).bell() == old(self).bell(),
    {
        let mut out: Vec<ClipboardEvent> = Vec::new();
        std::mem::swap(&mut out, &mut self.clipboard_events);
        out
    }

    /// Take every pending PTY write, oldest first.
    pub fn drain_pty_writes(&mut self) -> (out: Vec<String>)
        ensures
            final(self).wf() == old(self).wf(),
            out@ == old(self).writes(),
            final(self).writes().len() == 0,
            final(self).colors() == old(self).colors(),
            final(self).clipboard() == old(self).clipboard(),
            final(self).title_spec() == old(self).title_spec(),
            final(self).bell() == old(self).bell(),
    {
        let mut out: Vec<String> = Vec::new();
        std::mem::swap(&mut out, &mut self.pty_writes);
        out
    }

    /// Latest OSC 0/2 title, or `None` if the shell never set one or reset it.
    pub fn title(&self) -> (t: Option<String>)
        ensures
            t == self.title_spec(),
    {
        match &self.title {
            Some(t) => Some(t.clone()),
            None => None,
        }
    }

    /// The bell counter: `BELL_DECAY_MAX` right after a bell, falling by one
    /// per rendered frame. The flash's intensity is this over
    /// `BELL_DECAY_MAX`.
    pub fn bell_level(&self) -> (level: u8)
        requires
            self.wf(),
        ensures
            level == self.bell(),
            level <= BELL_DECAY_MAX,
    {
        self.bell_decay
    }

    /// Step the bell counter towards zero. Called once per rendered frame.
    pub fn decay_bell(&mut self)
        requires
            old(self).wf(),
        ensures
            final(self).wf(),
            final(self).bell() == if old(self).bell() > 0 {
                (old(self).bell() - 1) as u8
            } else {
                0
            },
            final(self).colors() == old(self).colors(),
            final(self).clipboard() == old(self).clipboard(),
            final(self).writes() == old(self).writes(),
            final(self).title_spec() == old(self).title_spec(),
    {
        if self.bell_decay > 0 {
            self.bell_decay = self.bell_decay - 1;
        }
    }

    /// Whether the bell is still decaying.
    pub fn bell_active(&self) -> (active: bool)
        ensures
            active == (self.bell() > 0),
    {
        self.bell_decay > 0
    }
}

/// The bell counter after `frames` decay steps from `level`.
pub open spec fn decayed(level: nat, frames: nat) -> nat {
    if level > frames {
        (level - frames) as nat
    } else {
        0
    }
}

/// A bell stays visible for exactly `BELL_DECAY_MAX` frames: along any run
/// of states that starts right after a bell and takes one `decay_bell` step
/// per frame, the counter after `k` frames is `BELL_DECAY_MAX - k` (never
/// below zero), so the bell is active for the first `BELL_DECAY_MAX`
/// frames and off from then on.
pub proof fn law_bell_fades(states: Seq<EventState>)
    requires
        states.len() > 0,
        states[0].bell() == BELL_DECAY_MAX,
        forall|k: int|
            0 <= k < states.len() - 1 ==> (#[trigger] states[k + 1]).bell() == if states[k].bell()
                > 0 {
                (states[k].bell() - 1) as u8
            } else {
                0
            },
    ensures
        forall|k: int|
            0 <= k < states.len() ==> (#[trigger] states[k]).bell() == decayed(
                BELL_DECAY_MAX as nat,
                k as nat,
            ),
        forall|k: int|
            0 <= k < states.len() ==> ((#[trigger] states[k]).bell() > 0 <==> k
                < BELL_DECAY_MAX),
{
    assert forall|k: int| 0 <= k < states.len() implies (#[trigger] states[k]).bell() == decayed(
        BELL_DECAY_MAX as nat,
        k as nat,
    ) by {
        lemma_decay_chain(states, k);
    }
}

proof fn lemma_decay_chain(states: Seq<EventState>, k: int)
    requires
        0 <= k < states.len(),
        states[0].bell() == BELL_DECAY_MAX,
        forall|j: int|
            0 <= j < states.len() - 1 ==> (#[trigger] states[j + 1]).bell() == if states[j].bell()
                > 0 {
                (states[j].bell() - 1) as u8
            } else {
                0
            },
    ensures
        states[k].bell() == decayed(BELL_DECAY_MAX as nat, k as nat),
    decreases k,
{
    if k > 0 {
        lemma_decay_chain(states, k - 1);
        assert(states[(k - 1) + 1].bell() == if states[k - 1].bell() > 0 {
            (states[k - 1].bell() - 1) as u8
        } else {
            0
        });
    }
}

} // verus!
