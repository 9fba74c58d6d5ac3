//! The decisions of the read-eval loop and of the steps that answer one
//! question.
//!
//! The loop reads lines from an editor, talks to a model and writes to a
//! session log; none of that happens here. After each piece of outside
//! work the loop asks here how to go on.

use crate::abort::{create_abort_signal, AbortOp, AbortSignal};
use crate::dispatch::ReplError;
use vstd::prelude::*;
use vstd::string::StringExecFns;

verus! {

/// What the line editor came back with.
#[derive(Clone, PartialEq, Eq, Debug)]
pub enum Signal {
    /// A submitted line.
    Success(String),
    CtrlC,
    CtrlD,
    /// Anything else.
    Other,
}

/// What the loop does with what the editor came back with.
#[derive(Clone, PartialEq, Eq, Debug)]
pub enum Turn {
    /// Carry the line out.
    Handle(String),
    /// Tell the user how to leave.
    Hint,
    /// Leave the loop.
    Leave,
    /// Read again.
    Skip,
}

/// What a `Turn` stands for.
pub enum TurnView {
    Handle(Seq<char>),
    Hint,
    Leave,
    Skip,
}

impl View for Turn {
    type V = TurnView;

    open spec fn view(&self) -> TurnView {
        match self {
            Turn::Handle(s) => TurnView::Handle(s@),
            Turn::Hint => TurnView::Hint,
            Turn::Leave => TurnView::Leave,
            Turn::Skip => TurnView::Skip,
        }
    }
}

/// How the loop goes on after a line was carried out.
#[derive(Clone, Copy, PartialEq, Eq, Debug, Structural)]
pub enum AfterHandle {
    /// The line asked to leave.
    Leave,
    /// Read the next line.
    Continue,
    /// Show the error and a blank line, then read the next line.
    Report,
}

/// The read-eval loop between two lines.
#[derive(Clone, Copy, PartialEq, Eq, Debug)]
pub struct Repl {
    /// The cancellation signal that the loop shares with the streams.
    pub abort: AbortSignal,
}

impl Repl {
    /// The loop at its start, with a signal that is not set.
    pub fn init() -> (r: Self)
        ensures
            r.abort == AbortSignal::cleared(),
    {
        Repl { abort: create_abort_signal() }
    }

    /// Whether the loop reads another line: it does until the exit flag is
    /// raised.
    pub fn reads_on(&self) -> (b: bool)
        ensures
            b == !self.abort.ctrld,
    {
        !self.abort.aborted_ctrld()
    }

    /// What to do with what the editor came back with. A submitted line
    /// clears the signal and is carried out; Ctrl-C raises the interrupt
    /// flag and earns a hint; Ctrl-D raises the exit flag and ends the
    /// loop.
    pub fn on_signal(&mut self, signal: Signal) -> (turn: Turn)
        ensures
            match signal {
                Signal::Success(line) => turn@ == TurnView::Handle(line@) && final(self).abort
                    == old(self).abort.after(AbortOp::Reset),
                Signal::CtrlC => turn@ == TurnView::Hint && final(self).abort == old(
                    self,
                ).abort.after(AbortOp::SetCtrlC),
                Signal::CtrlD => turn@ == TurnView::Leave && final(self).abort == old(
                    self,
                ).abort.after(AbortOp::SetCtrlD),
                Signal::Other => turn@ == TurnView::Skip && final(self).abort == old(self).abort,
            },
    {
        match signal {
            Signal::Success(line) => {
                self.abort.reset();
                Turn::Handle(line)
            },
            Signal::CtrlC => {
                self.abort.set_ctrlc();
                Turn::Hint
            },
            Signal::CtrlD => {
                self.abort.set_ctrld();
                Turn::Leave
            },
            Signal::Other => Turn::Skip,
        }
    }

    /// How to go on after a line was carried out: `exit` says whether the
    /// line asked to leave, `failed` whether carrying it out failed.
    pub fn after_handle(exit: bool, failed: bool) -> (next: AfterHandle)
        ensures
            next == if failed {
                AfterHandle::Report
            } else if exit {
                AfterHandle::Leave
            } else {
                AfterHandle::Continue
            },
    {
        if failed {
            AfterHandle::Report
        } else if exit {
            AfterHandle::Leave
        } else {
            AfterHandle::Continue
        }
    }

    /// The line that is carried out when the loop is left, so that an
    /// active session is closed.
    pub fn closing_line() -> (line: &'static str)
        ensures
            line@ == ".exit session"@,
    {
        ".exit session"
    }

    /// What Ctrl-C at the prompt is answered with.
    pub fn exit_hint() -> (hint: &'static str)
        ensures
            hint@ == "(To exit, press Ctrl+D or type .exit)\n"@,
    {
        "(To exit, press Ctrl+D or type .exit)\n"
    }

    /// The greeting of the loop.
    pub fn banner(version: &str) -> (text: String)
        ensures
            text@ == "Welcome to aichat "@ + version@
                + "\nType \".help\" for more information.\n"@,
    {
        let mut text = String::from_str("Welcome to aichat ");
        text.append(version);
        text.append("\nType \".help\" for more information.\n");
        text
    }

    /// The text to put on the clipboard, or `EmptyText` where there is
    /// none.
    pub fn copy<'a>(text: &'a str) -> (r: Result<&'a str, ReplError>)
        ensures
            r == if text@.len() == 0 {
                Err::<&str, ReplError>(ReplError::EmptyText)
            } else {
                Ok::<&str, ReplError>(text)
            },
    {
        if text.unicode_len() == 0 {
            Err(ReplError::EmptyText)
        } else {
            Ok(text)
        }
    }
}

/// How long `AskStep::Sleep` waits for a compression under way, in
/// milliseconds.
pub const COMPRESSION_WAIT_MS: u64 = 100;

/// The steps that answer one question, in the order in which they are
/// taken.
#[derive(Clone, Copy, PartialEq, Eq, Debug, Structural)]
pub enum AskStep {
    /// Is there anything to ask?
    CheckEmpty,
    /// Is the session being compressed?
    PollCompressing,
    /// Wait 100 ms for the compression.
    Sleep,
    /// Say how many tokens are sent, where that is wanted.
    ShowTokens,
    InitClient,
    /// Does the model have what the input needs?
    EnsureCapabilities,
    /// Send the input and render the reply stream.
    SendStream,
    /// Write input and reply to the session log.
    SaveMessage,
    /// Put the reply on the clipboard, where that is wanted.
    CopyOutput,
    /// Is the session over its threshold, with no compression under way?
    CheckThreshold,
    /// Tell the user that the session is compressed.
    AnnounceCompression,
    /// Start the compression in the background.
    SpawnCompression,
    /// The question is answered.
    Finish,
    /// A step failed: its error goes to the loop.
    Fail,
}

impl AskStep {
    /// The step that follows `self`. For a step that asks, `outcome` is
    /// the answer; for a step that can fail, whether it succeeded.
    pub open spec fn next(self, outcome: bool) -> AskStep {
        match self {
            AskStep::CheckEmpty => if outcome {
                AskStep::Finish
            } else {
                AskStep::PollCompressing
            },
            AskStep::PollCompressing => if outcome {
                AskStep::Sleep
            } else {
                AskStep::ShowTokens
            },
            AskStep::Sleep => AskStep::PollCompressing,
            AskStep::ShowTokens => AskStep::InitClient,
            AskStep::InitClient => if outcome {
                AskStep::EnsureCapabilities
            } else {
                AskStep::Fail
            },
            AskStep::EnsureCapabilities => if outcome {
                AskStep::SendStream
            } else {
                AskStep::Fail
            },
            AskStep::SendStream => if outcome {
                AskStep::SaveMessage
            } else {
                AskStep::Fail
            },
            AskStep::SaveMessage => if outcome {
                AskStep::CopyOutput
            } else {
                AskStep::Fail
            },
            AskStep::CopyOutput => AskStep::CheckThreshold,
            AskStep::CheckThreshold => if outcome {
                AskStep::AnnounceCompression
            } else {
                AskStep::Finish
            },
            AskStep::AnnounceCompression => AskStep::SpawnCompression,
            AskStep::SpawnCompression => AskStep::Finish,
            AskStep::Finish => AskStep::Finish,
            AskStep::Fail => AskStep::Fail,
        }
    }

    /// Whether nothing follows the step.
    pub open spec fn is_final(self) -> bool {
        self == AskStep::Finish || self == AskStep::Fail
    }

    /// The step reached from `self` by a run of outcomes.
    pub open spec fn after_all(self, outcomes: Seq<bool>) -> AskStep
        decreases outcomes.len(),
    {
        if outcomes.len() == 0 {
            self
        } else {
            self.after_all(outcomes.drop_last()).next(outcomes.last())
        }
    }

    /// The first step.
    pub fn start() -> (s: AskStep)
        ensures
            s == AskStep::CheckEmpty,
    {
        AskStep::CheckEmpty
    }

    /// Computes `next`.
    pub fn advance(self, outcome: bool) -> (s: AskStep)
        ensures
            s == self.next(outcome),
    {
        match self {
            AskStep::CheckEmpty => if outcome {
                AskStep::Finish
            } else {
                AskStep::PollCompressing
            },
            AskStep::PollCompressing => if outcome {
                AskStep::Sleep
            } else {
                AskStep::ShowTokens
            },
            AskStep::Sleep => AskStep::PollCompressing,
            AskStep::ShowTokens => AskStep::InitClient,
            AskStep::InitClient | AskStep::EnsureCapabilities | AskStep::SendStream
            | AskStep::SaveMessage => {
                if !outcome {
                    AskStep::Fail
                } else {
                    match self {
                        AskStep::InitClient => AskStep::EnsureCapabilities,
                        AskStep::EnsureCapabilities => AskStep::SendStream,
                        AskStep::SendStream => AskStep::SaveMessage,
                        _ => AskStep::CopyOutput,
                    }
                }
            },
            AskStep::CopyOutput => AskStep::CheckThreshold,
            AskStep::CheckThreshold => if outcome {
                AskStep::AnnounceCompression
            } else {
                AskStep::Finish
            },
            AskStep::AnnounceCompression => AskStep::SpawnCompression,
            AskStep::SpawnCompression => AskStep::Finish,
            AskStep::Finish => AskStep::Finish,
            AskStep::Fail => AskStep::Fail,
        }
    }

    /// Whether nothing follows the step.
    pub fn is_done(self) -> (b: bool)
        ensures
            b == self.is_final(),
    {
        self == AskStep::Finish || self == AskStep::Fail
    }
}

/// Nothing is sent while the session is being compressed: the step after
/// the poll is taken only on the answer that no compression is under way,
/// and there is no other way past it.
pub proof fn lemma_compression_barrier(outcomes: Seq<bool>)
    requires
        AskStep::CheckEmpty.after_all(outcomes) == AskStep::ShowTokens,
    ensures
        outcomes.len() >= 2,
        !outcomes.last(),
        AskStep::CheckEmpty.after_all(outcomes.drop_last()) == AskStep::PollCompressing,
{
    if outcomes.len() > 0 {
        let before = AskStep::CheckEmpty.after_all(outcomes.drop_last());
        assert(before.next(outcomes.last()) == AskStep::ShowTokens);
        assert(before == AskStep::PollCompressing);
        if outcomes.len() == 1 {
            assert(outcomes.drop_last().len() == 0);
        }
    }
}

/// Once a question is answered or has failed, nothing more is done for it.
pub proof fn lemma_final_stays(step: AskStep, outcomes: Seq<bool>)
    requires
        step.is_final(),
    ensures
        step.after_all(outcomes) == step,
    decreases outcomes.len(),
{
    if outcomes.len() > 0 {
        lemma_final_stays(step, outcomes.drop_last());
    }
}

/// The steps of the background task that replaces a long conversation by
/// its summary.
#[derive(Clone, Copy, PartialEq, Eq, Debug, Structural)]
pub enum CompressStep {
    /// Make the input that asks for the summary.
    BuildInput,
    InitClient,
    EnsureCapabilities,
    /// Ask the model, without streaming.
    SendMessage,
    /// Put the summary in place of the conversation.
    ReplaceConversation,
    /// Say that no compression is under way any more.
    ClearFlag,
    Done,
}

impl CompressStep {
    /// The step that follows `self`, where `ok` says whether `self`
    /// succeeded. A failure is swallowed: what is left is to clear the
    /// flag.
    pub open spec fn next(self, ok: bool) -> CompressStep {
        match self {
            CompressStep::BuildInput => CompressStep::InitClient,
            CompressStep::InitClient => if ok {
                CompressStep::EnsureCapabilities
            } else {
                CompressStep::ClearFlag
            },
            CompressStep::EnsureCapabilities => if ok {
                CompressStep::SendMessage
            } else {
                CompressStep::ClearFlag
            },
            CompressStep::SendMessage => if ok {
                CompressStep::ReplaceConversation
            } else {
                CompressStep::ClearFlag
            },
            CompressStep::ReplaceConversation => CompressStep::ClearFlag,
            CompressStep::ClearFlag => CompressStep::Done,
            CompressStep::Done => CompressStep::Done,
        }
    }

    /// The step reached from `self` by a run of outcomes.
    pub open spec fn after_all(self, outcomes: Seq<bool>) -> CompressStep
        decreases outcomes.len(),
    {
        if outcomes.len() == 0 {
            self
        } else {
            self.after_all(outcomes.drop_last()).next(outcomes.last())
        }
    }

    /// The first step.
    pub fn start() -> (s: CompressStep)
        ensures
            s == CompressStep::BuildInput,
    {
        CompressStep::BuildInput
    }

    /// Computes `next`.
    pub fn advance(self, ok: bool) -> (s: CompressStep)
        ensures
            s == self.next(ok),
    {
        match self {
            CompressStep::BuildInput => CompressStep::InitClient,
            CompressStep::InitClient => if ok {
                CompressStep::EnsureCapabilities
            } else {
                CompressStep::ClearFlag
            },
            CompressStep::EnsureCapabilities => if ok {
                CompressStep::SendMessage
            } else {
                CompressStep::ClearFlag
            },
            CompressStep::SendMessage => if ok {
                CompressStep::ReplaceConversation
            } else {
                CompressStep::ClearFlag
            },
            CompressStep::ReplaceConversation => CompressStep::ClearFlag,
            CompressStep::ClearFlag => CompressStep::Done,
            CompressStep::Done => CompressStep::Done,
        }
    }
}

/// The steps that the task has before it at most.
pub open spec fn steps_left(step: CompressStep) -> nat {
    match step {
        CompressStep::BuildInput => 6,
        CompressStep::InitClient => 5,
        CompressStep::EnsureCapabilities => 4,
        CompressStep::SendMessage => 3,
        CompressStep::ReplaceConversation => 2,
        CompressStep::ClearFlag => 1,
        CompressStep::Done => 0,
    }
}

/// The task ends only by clearing the flag.
pub proof fn lemma_flag_always_cleared(step: CompressStep, ok: bool)
    requires
        step != CompressStep::Done,
        step.next(ok) == CompressStep::Done,
    ensures
        step == CompressStep::ClearFlag,
{
}

/// Whatever fails, every step brings the task nearer to its end, which it
/// has reached after six steps.
pub proof fn lemma_compression_ends(outcomes: Seq<bool>)
    ensures
        steps_left(CompressStep::BuildInput.after_all(outcomes)) + outcomes.len() <= 6
            || CompressStep::BuildInput.after_all(outcomes) == CompressStep::Done,
        outcomes.len() >= 6 ==> CompressStep::BuildInput.after_all(outcomes) == CompressStep::Done,
    decreases outcomes.len(),
{
    if outcomes.len() > 0 {
        lemma_compression_ends(outcomes.drop_last());
    }
}

} // verus!
