//! The decisions of the two loops that drive a reply stream to the
//! terminal: the raw loop, which writes fragments through, and the
//! markdown loop, which renders batches and watches the keyboard.
//!
//! The loops themselves wait on channels, timers and the keyboard, and run
//! outside this library. After every wait they ask here what to do next.

use crate::abort::{AbortOp, AbortSignal};
use crate::event::{events_view, first_done, joined_text, ReplyEvent, ReplyEventView};
use crate::stream::concat;
use crate::text::texts_view;
use vstd::prelude::*;

verus! {

/// How long the markdown loop waits for the events of one batch, in
/// milliseconds.
pub const GATHER_WINDOW_MS: u64 = 50;

/// How long the markdown loop waits for a key after each batch, in
/// milliseconds.
pub const KEY_POLL_MS: u64 = 25;

/// The time between two turns of the spinner, in milliseconds.
pub const SPINNER_TICK_MS: u64 = 100;

/// Where a reply goes.
#[derive(Clone, Copy, PartialEq, Eq, Debug, Structural)]
pub enum StreamMode {
    /// To a terminal: rendered as markdown, in raw mode.
    Markdown,
    /// Anywhere else: written through as it comes.
    Raw,
}

/// The way to show a reply, given whether the output is a terminal.
pub fn stream_mode(output_is_terminal: bool) -> (mode: StreamMode)
    ensures
        mode == if output_is_terminal {
            StreamMode::Markdown
        } else {
            StreamMode::Raw
        },
{
    if output_is_terminal {
        StreamMode::Markdown
    } else {
        StreamMode::Raw
    }
}

/// The label of the spinner that turns until the first batch.
pub fn spinner_label() -> (label: &'static str)
    ensures
        label@ == " Generating"@,
{
    " Generating"
}

/// The modifier keys held down with a key.
#[derive(Clone, Copy, PartialEq, Eq, Debug, Structural)]
pub struct Modifiers {
    pub shift: bool,
    pub control: bool,
    pub alt: bool,
    /// Any other modifier (super, hyper, meta).
    pub other: bool,
}

/// A key press: the character of the key, where it has one, and the
/// modifiers.
#[derive(Clone, Copy, PartialEq, Eq, Debug, Structural)]
pub struct KeyPress {
    pub character: Option<char>,
    pub modifiers: Modifiers,
}

/// What a key press means while a reply is streaming.
#[derive(Clone, Copy, PartialEq, Eq, Debug, Structural)]
pub enum KeyAction {
    /// Ctrl-C: give up the reply.
    Interrupt,
    /// Ctrl-D: give up the reply and leave.
    Quit,
    Ignore,
}

impl Modifiers {
    /// Control and no other modifier.
    pub open spec fn only_control(self) -> bool {
        self.control && !self.shift && !self.alt && !self.other
    }
}

/// The meaning of `key`: `c` and `d` with control alone interrupt and
/// quit, every other key is ignored.
pub open spec fn key_action(key: KeyPress) -> KeyAction {
    if key.character == Some('c') && key.modifiers.only_control() {
        KeyAction::Interrupt
    } else if key.character == Some('d') && key.modifiers.only_control() {
        KeyAction::Quit
    } else {
        KeyAction::Ignore
    }
}

/// Computes `key_action`.
pub fn classify_key(key: &KeyPress) -> (a: KeyAction)
    ensures
        a == key_action(*key),
{
    let m = key.modifiers;
    let only_control = m.control && !m.shift && !m.alt && !m.other;
    match key.character {
        Some(c) => {
            if c == 'c' && only_control {
                KeyAction::Interrupt
            } else if c == 'd' && only_control {
                KeyAction::Quit
            } else {
                KeyAction::Ignore
            }
        },
        None => KeyAction::Ignore,
    }
}

/// Why a stream ended before its `Done`.
#[derive(Clone, Copy, PartialEq, Eq, Debug, Structural)]
pub enum StreamError {
    /// The channel was closed and no `Done` had come.
    Unterminated,
}

impl StreamError {
    pub open spec fn message_spec(self) -> Seq<char> {
        match self {
            StreamError::Unterminated => "The reply ended before it was complete"@,
        }
    }

    /// The single line shown to the user.
    pub fn message(&self) -> (s: &'static str)
        ensures
            s@ == self.message_spec(),
    {
        match self {
            StreamError::Unterminated => "The reply ended before it was complete",
        }
    }
}

/// What the raw loop does with what it received.
#[derive(Clone, PartialEq, Eq, Debug)]
pub enum RawStep {
    /// Write the fragment as it is, flush, and go on.
    Write(String),
    /// The reply is complete.
    Finish,
    /// The channel was closed before the reply was complete.
    Fail(StreamError),
}

/// What a `RawStep` stands for.
pub enum RawStepView {
    Write(Seq<char>),
    Finish,
    Fail(StreamError),
}

impl View for RawStep {
    type V = RawStepView;

    open spec fn view(&self) -> RawStepView {
        match self {
            RawStep::Write(s) => RawStepView::Write(s@),
            RawStep::Finish => RawStepView::Finish,
            RawStep::Fail(e) => RawStepView::Fail(*e),
        }
    }
}

/// The step of the raw loop for a received event; `None` stands for a
/// closed channel. The loop asks `AbortSignal::aborted` before it waits
/// for the event, and leaves when it is set.
pub fn raw_step(received: Option<ReplyEvent>) -> (step: RawStep)
    ensures
        step@ == match received {
            Some(ReplyEvent::Text(t)) => RawStepView::Write(t@),
            Some(ReplyEvent::Done) => RawStepView::Finish,
            None => RawStepView::Fail(StreamError::Unterminated),
        },
{
    match received {
        Some(ReplyEvent::Text(t)) => RawStep::Write(t),
        Some(ReplyEvent::Done) => RawStep::Finish,
        None => RawStep::Fail(StreamError::Unterminated),
    }
}

/// How the markdown loop goes on after a batch.
#[derive(Clone, Copy, PartialEq, Eq, Debug, Structural)]
pub enum AfterBatch {
    /// Look at the keyboard, then take the next batch.
    PollKeyboard,
    /// The reply is complete: leave the loop.
    Finished,
    /// The channel was closed before the reply was complete: leave the
    /// loop with an error.
    Failed(StreamError),
}

/// What the markdown loop does with a batch.
#[derive(Clone, PartialEq, Eq, Debug)]
pub struct BatchPlan {
    /// Stop the spinner before anything is drawn.
    pub cancel_spinner: bool,
    /// The chunks to apply to the renderer, in order.
    pub chunks: Vec<String>,
    pub next: AfterBatch,
}

/// The fragments of the events before position `n`.
pub open spec fn fragments(evs: Seq<ReplyEventView>, n: int) -> Seq<Seq<char>>
    decreases n,
{
    if n <= 0 || n > evs.len() {
        Seq::empty()
    } else {
        match evs[n - 1] {
            ReplyEventView::Text(t) => fragments(evs, n - 1).push(t),
            ReplyEventView::Done => fragments(evs, n - 1),
        }
    }
}

/// The fragments of a batch, put together, are the text of the batch: to
/// apply the one joined text is to apply the same stream in another split.
pub proof fn lemma_joined_fragments(evs: Seq<ReplyEventView>, n: int)
    requires
        0 <= n <= evs.len(),
    ensures
        joined_text(evs.take(n)) == concat(fragments(evs, n)),
    decreases n,
{
    if n == 0 {
        assert(evs.take(0) =~= Seq::<ReplyEventView>::empty());
    } else {
        lemma_joined_fragments(evs, n - 1);
        assert(evs.take(n).drop_last() =~= evs.take(n - 1));
        assert(evs.take(n).last() == evs[n - 1]);
        match evs[n - 1] {
            ReplyEventView::Text(t) => {
                assert(fragments(evs, n).drop_last() =~= fragments(evs, n - 1));
            },
            ReplyEventView::Done => {
                assert(joined_text(evs.take(n)) =~= joined_text(evs.take(n - 1)));
            },
        }
    }
}

/// The markdown loop between two waits.
#[derive(Clone, Copy, PartialEq, Eq, Debug, Structural)]
pub struct StreamLoop {
    /// The spinner is still turning.
    pub spinner_armed: bool,
    /// The loop is to be left.
    pub leaving: bool,
}

impl StreamLoop {
    /// The loop at its start: the spinner turns, nothing has come.
    pub fn new() -> (s: Self)
        ensures
            s.spinner_armed,
            !s.leaving,
    {
        StreamLoop { spinner_armed: true, leaving: false }
    }

    /// Whether the loop takes another batch: it does until it is left or
    /// the signal is set.
    pub fn goes_on(&self, abort: &AbortSignal) -> (b: bool)
        ensures
            b == (!self.leaving && !abort.is_aborted()),
    {
        !self.leaving && !abort.aborted()
    }

    /// What to do with a batch. Its fragments up to the first `Done` are
    /// the chunks to apply. The spinner is stopped with the first batch
    /// that holds anything. After a `Done` the loop is left; it is left
    /// with an error where the channel was closed and no `Done` came.
    pub fn on_batch(&mut self, batch: &Vec<ReplyEvent>, closed: bool) -> (plan: BatchPlan)
        ensures
            plan.cancel_spinner == (old(self).spinner_armed && batch@.len() > 0),
            final(self).spinner_armed == (old(self).spinner_armed && batch@.len() == 0),
            texts_view(plan.chunks@) == fragments(
                events_view(batch@),
                first_done(events_view(batch@), 0),
            ),
            plan.next == if first_done(events_view(batch@), 0) < batch@.len() {
                AfterBatch::Finished
            } else if closed {
                AfterBatch::Failed(StreamError::Unterminated)
            } else {
                AfterBatch::PollKeyboard
            },
            final(self).leaving == (old(self).leaving || plan.next != AfterBatch::PollKeyboard),
            plan.chunks@.len() > 0 ==> !final(self).spinner_armed,
    {
        let ghost evs = events_view(batch@);
        let cancel_spinner = self.spinner_armed && batch.len() > 0;
        if batch.len() > 0 {
            self.spinner_armed = false;
        }
        let mut chunks: Vec<String> = Vec::new();
        let mut done = false;
        let mut n: usize = 0;
        assert(texts_view(chunks@) =~= fragments(evs, 0));
        while n < batch.len() && !done
            invariant
                n <= batch.len(),
                evs == events_view(batch@),
                first_done(evs, 0) == first_done(evs, n as int),
                texts_view(chunks@) == fragments(evs, n as int),
                done ==> n < batch.len() && evs[n as int] is Done,
            decreases batch.len() - n + if done { 0int } else { 1int },
        {
            match &batch[n] {
                ReplyEvent::Text(t) => {
                    let ghost before = texts_view(chunks@);
                    chunks.push(t.clone());
                    proof {
                        assert(evs[n as int] == ReplyEventView::Text(t@));
                        assert(texts_view(chunks@) =~= before.push(t@));
                    }
                    n += 1;
                },
                ReplyEvent::Done => {
                    assert(evs[n as int] is Done);
                    done = true;
                },
            }
        }
        let next = if done {
            AfterBatch::Finished
        } else if closed {
            AfterBatch::Failed(StreamError::Unterminated)
        } else {
            AfterBatch::PollKeyboard
        };
        if next != AfterBatch::PollKeyboard {
            self.leaving = true;
        }
        BatchPlan { cancel_spinner, chunks, next }
    }

    /// What a key press does: Ctrl-C and Ctrl-D set their flag of the
    /// signal and end the loop; any other key changes nothing.
    pub fn on_key(&mut self, abort: &mut AbortSignal, key: &KeyPress) -> (a: KeyAction)
        ensures
            a == key_action(*key),
            final(self).spinner_armed == old(self).spinner_armed,
            final(self).leaving == (old(self).leaving || a != KeyAction::Ignore),
            *final(abort) == match a {
                KeyAction::Interrupt => old(abort).after(AbortOp::SetCtrlC),
                KeyAction::Quit => old(abort).after(AbortOp::SetCtrlD),
                KeyAction::Ignore => *old(abort),
            },
    {
        let a = classify_key(key);
        match a {
            KeyAction::Interrupt => {
                abort.set_ctrlc();
                self.leaving = true;
            },
            KeyAction::Quit => {
                abort.set_ctrld();
                self.leaving = true;
            },
            KeyAction::Ignore => {},
        }
        a
    }

    /// Called when the loop is left: whether the spinner must still be
    /// stopped.
    pub fn leave(&mut self) -> (cancel_spinner: bool)
        ensures
            cancel_spinner == old(self).spinner_armed,
            !final(self).spinner_armed,
            final(self).leaving,
    {
        let armed = self.spinner_armed;
        self.spinner_armed = false;
        self.leaving = true;
        armed
    }
}

} // verus!
