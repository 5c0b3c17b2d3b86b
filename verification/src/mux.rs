use vstd::prelude::*;
use crate::ingest::{ascii_chars, feed_bytes, is_ascii_bytes, lossy_of, trim_end_spec, LineAssembler};

verus! {

/// Why a session's multiplexing loop ended.
#[derive(Clone, Copy, Debug, PartialEq, Eq, Structural)]
pub enum StopReason {
    /// A zero-byte read from the PTY master: the shell exited. Not an
    /// error.
    ShellExited,
    /// A zero-byte read from the controller's input: stdin closed.
    InputClosed,
    /// A genuine read or write failure on either descriptor.
    IoFailure,
    /// An external interrupt asked the session to stop.
    Cancelled,
}

/// One readiness observation handed to the multiplexer by the loop that
/// waits on the descriptors.
pub enum MuxEvent {
    /// Bytes read from the PTY master.
    PtyChunk(Vec<u8>),
    /// A zero-byte read from the PTY master.
    PtyEof,
    /// A read failure on the PTY master.
    PtyFault,
    /// Bytes read from the controller's input.
    StdinChunk(Vec<u8>),
    /// A zero-byte read from the controller's input.
    StdinEof,
    /// A read failure on the controller's input.
    StdinFault,
    /// The controlling terminal changed geometry.
    WindowChange(u16, u16),
    /// An external cancellation request.
    Cancel,
}

/// What the caller must do after one multiplexer step. Every field is
/// empty once the session has stopped.
pub struct StepOutput {
    /// Write these bytes verbatim to the controller's standard output.
    pub echo: Option<Vec<u8>>,
    /// Write these bytes verbatim to the PTY master (shell input).
    pub feed: Option<Vec<u8>>,
    /// Persist these completed lines, in this order.
    pub lines: Vec<String>,
    /// Apply this geometry to the PTY.
    pub resize: Option<(u16, u16)>,
    /// Stop: perform no further session I/O and restore the terminal
    /// mode now, exactly once.
    pub stop: Option<StopReason>,
}

/// The events on which the session ends.
pub open spec fn is_terminal_event(e: MuxEvent) -> bool {
    match e {
        MuxEvent::PtyEof => true,
        MuxEvent::PtyFault => true,
        MuxEvent::StdinEof => true,
        MuxEvent::StdinFault => true,
        MuxEvent::Cancel => true,
        _ => false,
    }
}

/// The reason reported for each terminal event.
pub open spec fn stop_reason_of(e: MuxEvent) -> StopReason {
    match e {
        MuxEvent::PtyEof => StopReason::ShellExited,
        MuxEvent::StdinEof => StopReason::InputClosed,
        MuxEvent::PtyFault => StopReason::IoFailure,
        MuxEvent::StdinFault => StopReason::IoFailure,
        _ => StopReason::Cancelled,
    }
}

/// The I/O multiplexer's decision core: takes readiness events, decides
/// what is forwarded where, feeds the captured output through the line
/// reassembler, and ends the session exactly once.
pub struct Multiplexer {
    finished: bool,
    assembler: LineAssembler,
}

impl Multiplexer {
    /// Whether the session has ended.
    pub closed spec fn is_done(&self) -> bool {
        self.finished
    }

    /// The pending unterminated output fragment.
    pub closed spec fn pending(&self) -> Seq<u8> {
        self.assembler@
    }

    /// Whether the session has ended, observably.
    pub fn done(&self) -> (r: bool)
        ensures
            r == self.is_done(),
    {
        self.finished
    }

    /// A multiplexer for a fresh session.
    pub fn new() -> (r: Self)
        ensures
            !r.is_done(),
            r.pending() == Seq::<u8>::empty(),
    {
        Multiplexer { finished: false, assembler: LineAssembler::new() }
    }

    /// Handle one event.
    ///
    /// A zero-byte read from the PTY master (`PtyEof`) is never treated
    /// as an error: it stops the session with `ShellExited`, like every
    /// other terminal event it asks for the terminal-mode restore exactly
    /// on the running-to-done transition, and after it nothing more is
    /// echoed, fed to the master, or captured. On the stop transition the
    /// pending fragment is flushed as a final best-effort line.
    pub fn on_event(&mut self, event: MuxEvent) -> (out: StepOutput)
        ensures
            final(self).is_done() == (old(self).is_done() || is_terminal_event(event)),
            out.stop is Some <==> (!old(self).is_done() && is_terminal_event(event)),
            (!old(self).is_done() && is_terminal_event(event)) ==> out.stop == Some(
                stop_reason_of(event),
            ),
            old(self).is_done() ==> (*final(self) == *old(self) && out.echo is None
                && out.feed is None && out.lines@.len() == 0 && out.resize is None),
            !old(self).is_done() ==> (event matches MuxEvent::PtyChunk(b) ==> {
                &&& out.echo == Some(b)
                &&& out.feed is None
                &&& out.resize is None
                &&& final(self).pending() == feed_bytes(old(self).pending(), b@).0
                &&& out.lines@.len() == feed_bytes(old(self).pending(), b@).1.len()
                &&& forall|i: int|
                    0 <= i < out.lines@.len() ==> out.lines@[i]@ == lossy_of(
                        feed_bytes(old(self).pending(), b@).1[i],
                    )
                &&& forall|i: int|
                    0 <= i < out.lines@.len() && is_ascii_bytes(
                        feed_bytes(old(self).pending(), b@).1[i],
                    ) ==> out.lines@[i]@ == ascii_chars(feed_bytes(old(self).pending(), b@).1[i])
            }),
            !old(self).is_done() ==> (event matches MuxEvent::StdinChunk(b) ==> {
                &&& out.feed == Some(b)
                &&& out.echo is None
                &&& out.resize is None
                &&& out.lines@.len() == 0
                &&& final(self).pending() == old(self).pending()
            }),
            !old(self).is_done() ==> (event matches MuxEvent::WindowChange(r, c) ==> {
                &&& out.resize == Some((r, c))
                &&& out.echo is None
                &&& out.feed is None
                &&& out.lines@.len() == 0
                &&& final(self).pending() == old(self).pending()
            }),
            (!old(self).is_done() && is_terminal_event(event)) ==> ({
                &&& out.echo is None
                &&& out.feed is None
                &&& out.resize is None
                &&& final(self).pending() == Seq::<u8>::empty()
                &&& (old(self).pending().len() == 0 ==> out.lines@.len() == 0)
                &&& (old(self).pending().len() > 0 ==> (out.lines@.len() == 1 && out.lines@[0]@
                    == lossy_of(trim_end_spec(old(self).pending()))))
                &&& ((old(self).pending().len() > 0 && is_ascii_bytes(
                    trim_end_spec(old(self).pending()),
                )) ==> out.lines@[0]@ == ascii_chars(trim_end_spec(old(self).pending())))
            }),
    {
        if self.finished {
            return StepOutput {
                echo: None,
                feed: None,
                lines: Vec::new(),
                resize: None,
                stop: None,
            };
        }
        match event {
            MuxEvent::PtyChunk(b) => {
                let lines = self.assembler.ingest_text(b.as_slice());
                StepOutput { echo: Some(b), feed: None, lines, resize: None, stop: None }
            },
            MuxEvent::StdinChunk(b) => {
                StepOutput { echo: None, feed: Some(b), lines: Vec::new(), resize: None, stop: None }
            },
            MuxEvent::WindowChange(r, c) => {
                StepOutput {
                    echo: None,
                    feed: None,
                    lines: Vec::new(),
                    resize: Some((r, c)),
                    stop: None,
                }
            },
            MuxEvent::PtyEof => {
                self.stop_with(StopReason::ShellExited)
            },
            MuxEvent::StdinEof => {
                self.stop_with(StopReason::InputClosed)
            },
            MuxEvent::PtyFault => {
                self.stop_with(StopReason::IoFailure)
            },
            MuxEvent::StdinFault => {
                self.stop_with(StopReason::IoFailure)
            },
            MuxEvent::Cancel => {
                self.stop_with(StopReason::Cancelled)
            },
        }
    }

    /// End the session: flush the pending fragment and ask for the
    /// terminal-mode restore.
    fn stop_with(&mut self, reason: StopReason) -> (out: StepOutput)
        requires
            !old(self).is_done(),
        ensures
            final(self).is_done(),
            final(self).pending() == Seq::<u8>::empty(),
            out.stop == Some(reason),
            out.echo is None && out.feed is None && out.resize is None,
            old(self).pending().len() == 0 ==> out.lines@.len() == 0,
            old(self).pending().len() > 0 ==> (out.lines@.len() == 1 && out.lines@[0]@ == lossy_of(
                trim_end_spec(old(self).pending()),
            )),
            (old(self).pending().len() > 0 && is_ascii_bytes(trim_end_spec(old(self).pending())))
                ==> out.lines@[0]@ == ascii_chars(trim_end_spec(old(self).pending())),
    {
        self.finished = true;
        let mut lines: Vec<String> = Vec::new();
        match self.assembler.flush_text() {
            None => {},
            Some(l) => {
                lines.push(l);
            },
        }
        StepOutput { echo: None, feed: None, lines, resize: None, stop: Some(reason) }
    }
}

/// Whether some event in the sequence is terminal.
pub open spec fn any_terminal(events: Seq<MuxEvent>) -> bool {
    exists|i: int| 0 <= i < events.len() && is_terminal_event(events[i])
}

/// How many stop directives -- each carrying the terminal-mode restore --
/// the multiplexer issues over `events`, starting from a session that is
/// already done (`done0` true) or still running.
pub open spec fn stops_emitted(done0: bool, events: Seq<MuxEvent>) -> nat
    decreases events.len(),
{
    if events.len() == 0 {
        0
    } else {
        (if !done0 && is_terminal_event(events[0]) {
            1nat
        } else {
            0nat
        }) + stops_emitted(done0 || is_terminal_event(events[0]), events.drop_first())
    }
}

/// Restore law: over any sequence of events, a running session issues the
/// stop directive -- and with it the terminal-mode restore -- at most
/// once, and exactly once when any terminal outcome (shell exit, input
/// close, I/O failure, cancellation) occurs; a session already done never
/// issues it again.
pub proof fn lemma_restore_exactly_once(events: Seq<MuxEvent>)
    ensures
        stops_emitted(true, events) == 0,
        stops_emitted(false, events) == (if any_terminal(events) {
            1nat
        } else {
            0nat
        }),
    decreases events.len(),
{
    if events.len() == 0 {
    } else {
        lemma_restore_exactly_once(events.drop_first());
        if is_terminal_event(events[0]) {
            assert(any_terminal(events));
        } else {
            assert(any_terminal(events) == any_terminal(events.drop_first())) by {
                if any_terminal(events.drop_first()) {
                    let i = choose|i: int|
                        0 <= i < events.drop_first().len() && is_terminal_event(
                            events.drop_first()[i],
                        );
                    assert(is_terminal_event(events[i + 1]));
                }
                if any_terminal(events) {
                    let i = choose|i: int| 0 <= i < events.len() && is_terminal_event(events[i]);
                    assert(i != 0);
                    assert(is_terminal_event(events.drop_first()[i - 1]));
                }
            }
        }
    }
}

} // verus!
