use aichat_core::abort::{create_abort_signal, AbortSignal};
use aichat_core::dispatch::ReplError;
use aichat_core::driver::{
    classify_key, raw_step, spinner_label, stream_mode, AfterBatch, KeyAction, KeyPress,
    Modifiers, RawStep, StreamError, StreamLoop, StreamMode, GATHER_WINDOW_MS, KEY_POLL_MS,
};
use aichat_core::editor::{
    append_decimal, buffer_editor_file, create_edit_mode, extra_keybindings, menu_name, Binding,
    EditMode, EditorEvent, Key, Keymap, Modifier,
};
use aichat_core::event::{gather_events, ReplyEvent};
use aichat_core::repl::{
    AfterHandle, AskStep, CompressStep, Repl, Signal, Turn, COMPRESSION_WAIT_MS,
};
use aichat_core::style::{compression_notice, render_error};

fn text(s: &str) -> ReplyEvent {
    ReplyEvent::Text(s.to_string())
}

const CONTROL: Modifiers = Modifiers { shift: false, control: true, alt: false, other: false };
const PLAIN: Modifiers = Modifiers { shift: false, control: false, alt: false, other: false };

fn key(c: char, modifiers: Modifiers) -> KeyPress {
    KeyPress { character: Some(c), modifiers }
}

#[test]
fn abort_signal_flags() {
    let mut abort = create_abort_signal();
    assert!(!abort.aborted());
    assert!(!abort.aborted_ctrlc());
    assert!(!abort.aborted_ctrld());
    abort.set_ctrlc();
    assert!(abort.aborted());
    assert!(abort.aborted_ctrlc());
    assert!(!abort.aborted_ctrld());
    abort.set_ctrlc();
    assert_eq!(abort, AbortSignal { ctrlc: true, ctrld: false });
    abort.set_ctrld();
    assert!(abort.aborted_ctrld());
    assert_eq!(abort, AbortSignal { ctrlc: true, ctrld: true });
}

#[test]
fn abort_signal_is_quiet_after_reset() {
    for (ctrlc, ctrld) in [(false, false), (true, false), (false, true), (true, true)] {
        let mut abort = AbortSignal { ctrlc, ctrld };
        abort.reset();
        assert_eq!(abort, create_abort_signal());
        for _ in 0..3 {
            assert!(!abort.aborted());
            assert!(!abort.aborted_ctrlc());
            assert!(!abort.aborted_ctrld());
        }
        abort.set_ctrld();
        assert!(abort.aborted());
    }
}

#[test]
fn gather_events_joins_fragments() {
    assert_eq!(gather_events(vec![]), vec![]);
    assert_eq!(gather_events(vec![text("a")]), vec![text("a")]);
    assert_eq!(
        gather_events(vec![text("Hel"), text("lo"), text("!\n")]),
        vec![text("Hello!\n")]
    );
    assert_eq!(
        gather_events(vec![text("a"), text("b"), ReplyEvent::Done]),
        vec![text("ab"), ReplyEvent::Done]
    );
    assert_eq!(gather_events(vec![ReplyEvent::Done]), vec![ReplyEvent::Done]);
}

#[test]
fn gather_events_edge_cases() {
    // An empty fragment is a fragment.
    assert_eq!(gather_events(vec![text("")]), vec![text("")]);
    assert_eq!(
        gather_events(vec![text(""), ReplyEvent::Done]),
        vec![text(""), ReplyEvent::Done]
    );
    // Nothing counts after the end of the reply.
    assert_eq!(
        gather_events(vec![text("a"), ReplyEvent::Done, text("b"), ReplyEvent::Done]),
        vec![text("a"), ReplyEvent::Done]
    );
    assert_eq!(
        gather_events(vec![ReplyEvent::Done, text("b")]),
        vec![ReplyEvent::Done]
    );
}

#[test]
fn keys_while_streaming() {
    assert_eq!(classify_key(&key('c', CONTROL)), KeyAction::Interrupt);
    assert_eq!(classify_key(&key('d', CONTROL)), KeyAction::Quit);
    assert_eq!(classify_key(&key('c', PLAIN)), KeyAction::Ignore);
    assert_eq!(classify_key(&key('d', PLAIN)), KeyAction::Ignore);
    assert_eq!(classify_key(&key('x', CONTROL)), KeyAction::Ignore);
    assert_eq!(classify_key(&key('C', CONTROL)), KeyAction::Ignore);
    let with_shift = Modifiers { shift: true, ..CONTROL };
    let with_alt = Modifiers { alt: true, ..CONTROL };
    let with_other = Modifiers { other: true, ..CONTROL };
    for modifiers in [with_shift, with_alt, with_other] {
        assert_eq!(classify_key(&key('c', modifiers)), KeyAction::Ignore);
        assert_eq!(classify_key(&key('d', modifiers)), KeyAction::Ignore);
    }
    assert_eq!(
        classify_key(&KeyPress { character: None, modifiers: CONTROL }),
        KeyAction::Ignore
    );
}

#[test]
fn raw_loop_steps() {
    assert_eq!(raw_step(Some(text("abc"))), RawStep::Write("abc".to_string()));
    assert_eq!(raw_step(Some(text(""))), RawStep::Write(String::new()));
    assert_eq!(raw_step(Some(ReplyEvent::Done)), RawStep::Finish);
    assert_eq!(raw_step(None), RawStep::Fail(StreamError::Unterminated));
    assert_eq!(
        StreamError::Unterminated.message(),
        "The reply ended before it was complete"
    );
}

#[test]
fn markdown_loop_stops_the_spinner_with_the_first_batch() {
    let abort = create_abort_signal();
    let mut stream = StreamLoop::new();
    assert!(stream.goes_on(&abort));
    let plan = stream.on_batch(&vec![], false);
    assert!(!plan.cancel_spinner);
    assert!(plan.chunks.is_empty());
    assert_eq!(plan.next, AfterBatch::PollKeyboard);
    assert!(stream.spinner_armed);
    let plan = stream.on_batch(&vec![text("Hello")], false);
    assert!(plan.cancel_spinner);
    assert_eq!(plan.chunks, vec!["Hello".to_string()]);
    assert_eq!(plan.next, AfterBatch::PollKeyboard);
    assert!(!stream.spinner_armed);
    let plan = stream.on_batch(&vec![text(" world")], false);
    assert!(!plan.cancel_spinner);
    assert!(stream.goes_on(&abort));
    assert!(!stream.leave());
}

#[test]
fn markdown_loop_ends_with_done() {
    let abort = create_abort_signal();
    let mut stream = StreamLoop::new();
    let plan = stream.on_batch(&vec![text("bye"), ReplyEvent::Done], false);
    assert!(plan.cancel_spinner);
    assert_eq!(plan.chunks, vec!["bye".to_string()]);
    assert_eq!(plan.next, AfterBatch::Finished);
    assert!(!stream.goes_on(&abort));
    assert!(!stream.leave());

    let mut stream = StreamLoop::new();
    let plan = stream.on_batch(&vec![ReplyEvent::Done, text("late")], true);
    assert!(plan.cancel_spinner);
    assert!(plan.chunks.is_empty());
    assert_eq!(plan.next, AfterBatch::Finished);
}

#[test]
fn markdown_loop_fails_on_a_closed_channel() {
    let abort = create_abort_signal();
    let mut stream = StreamLoop::new();
    let plan = stream.on_batch(&vec![text("cut")], true);
    assert_eq!(plan.chunks, vec!["cut".to_string()]);
    assert_eq!(plan.next, AfterBatch::Failed(StreamError::Unterminated));
    assert!(!stream.goes_on(&abort));
    let mut stream = StreamLoop::new();
    let plan = stream.on_batch(&vec![], true);
    assert_eq!(plan.next, AfterBatch::Failed(StreamError::Unterminated));
    // Nothing was drawn: the spinner is stopped on the way out.
    assert!(stream.leave());
    assert!(!stream.leave());
}

#[test]
fn cancellation() {
    let mut repl = Repl::init();
    assert_eq!(repl.on_signal(Signal::Success("tell me".to_string())), Turn::Handle("tell me".to_string()));
    let mut stream = StreamLoop::new();
    let mut applied = 0;
    for n in 0..1000 {
        if !stream.goes_on(&repl.abort) {
            break;
        }
        let plan = stream.on_batch(&vec![text("chunk")], false);
        applied += plan.chunks.len();
        assert_eq!(plan.next, AfterBatch::PollKeyboard);
        if n == 9 {
            let action = stream.on_key(&mut repl.abort, &key('c', CONTROL));
            assert_eq!(action, KeyAction::Interrupt);
        } else {
            let action = stream.on_key(&mut repl.abort, &key('q', PLAIN));
            assert_eq!(action, KeyAction::Ignore);
        }
    }
    assert_eq!(applied, 10);
    assert!(!stream.goes_on(&repl.abort));
    assert!(repl.abort.aborted());
    assert!(repl.abort.aborted_ctrlc());
    // The read-eval loop goes on, and the next line clears the signal.
    assert!(repl.reads_on());
    assert_eq!(repl.on_signal(Signal::Success("again".to_string())), Turn::Handle("again".to_string()));
    assert!(!repl.abort.aborted());
    assert!(StreamLoop::new().goes_on(&repl.abort));
}

#[test]
fn quitting_a_stream_ends_the_loop() {
    let mut repl = Repl::init();
    let mut stream = StreamLoop::new();
    assert_eq!(stream.on_key(&mut repl.abort, &key('d', CONTROL)), KeyAction::Quit);
    assert!(!stream.goes_on(&repl.abort));
    assert!(repl.abort.aborted_ctrld());
    assert!(!repl.reads_on());
}

#[test]
fn an_aborted_signal_stops_the_stream_before_the_next_batch() {
    let mut abort = create_abort_signal();
    let stream = StreamLoop::new();
    abort.set_ctrlc();
    assert!(!stream.goes_on(&abort));
    abort.reset();
    assert!(stream.goes_on(&abort));
}

#[test]
fn repl_loop_turns() {
    let mut repl = Repl::init();
    assert_eq!(repl.abort, create_abort_signal());
    assert!(repl.reads_on());
    assert_eq!(repl.on_signal(Signal::CtrlC), Turn::Hint);
    assert!(repl.abort.aborted_ctrlc());
    assert!(repl.reads_on());
    assert_eq!(repl.on_signal(Signal::Other), Turn::Skip);
    assert!(repl.abort.aborted_ctrlc());
    assert_eq!(repl.on_signal(Signal::Success(".help".to_string())), Turn::Handle(".help".to_string()));
    assert!(!repl.abort.aborted());
    assert_eq!(repl.on_signal(Signal::CtrlD), Turn::Leave);
    assert!(repl.abort.aborted_ctrld());
    assert!(!repl.reads_on());
}

#[test]
fn repl_loop_after_a_line() {
    assert_eq!(Repl::after_handle(true, false), AfterHandle::Leave);
    assert_eq!(Repl::after_handle(false, false), AfterHandle::Continue);
    assert_eq!(Repl::after_handle(false, true), AfterHandle::Report);
    assert_eq!(Repl::after_handle(true, true), AfterHandle::Report);
    assert_eq!(Repl::closing_line(), ".exit session");
    assert_eq!(Repl::exit_hint(), "(To exit, press Ctrl+D or type .exit)\n");
    assert_eq!(
        Repl::banner("0.9.0"),
        "Welcome to aichat 0.9.0\nType \".help\" for more information.\n"
    );
}

#[test]
fn copy_needs_text() {
    assert_eq!(Repl::copy(""), Err(ReplError::EmptyText));
    assert_eq!(Repl::copy("reply"), Ok("reply"));
    assert_eq!(Repl::copy(" "), Ok(" "));
}

fn walk(outcomes: &[bool]) -> Vec<AskStep> {
    let mut step = AskStep::start();
    let mut steps = vec![step];
    for outcome in outcomes {
        step = step.advance(*outcome);
        steps.push(step);
    }
    steps
}

#[test]
fn ask_steps_in_order() {
    assert_eq!(
        walk(&[false, false, true, true, true, true, true, true, false]),
        vec![
            AskStep::CheckEmpty,
            AskStep::PollCompressing,
            AskStep::ShowTokens,
            AskStep::InitClient,
            AskStep::EnsureCapabilities,
            AskStep::SendStream,
            AskStep::SaveMessage,
            AskStep::CopyOutput,
            AskStep::CheckThreshold,
            AskStep::Finish,
        ]
    );
    assert_eq!(
        walk(&[false, false, true, true, true, true, true, true, true, true, true])[9..],
        [AskStep::AnnounceCompression, AskStep::SpawnCompression, AskStep::Finish]
    );
    assert!(AskStep::Finish.is_done());
    assert!(AskStep::Fail.is_done());
    assert!(!AskStep::SendStream.is_done());
}

#[test]
fn ask_steps_of_an_empty_input() {
    assert_eq!(walk(&[true]), vec![AskStep::CheckEmpty, AskStep::Finish]);
    assert_eq!(AskStep::Finish.advance(true), AskStep::Finish);
    assert_eq!(AskStep::Finish.advance(false), AskStep::Finish);
}

#[test]
fn ask_waits_for_the_compression() {
    assert_eq!(
        walk(&[false, true, true, true, false, false]),
        vec![
            AskStep::CheckEmpty,
            AskStep::PollCompressing,
            AskStep::Sleep,
            AskStep::PollCompressing,
            AskStep::Sleep,
            AskStep::PollCompressing,
            AskStep::ShowTokens,
        ]
    );
}

#[test]
fn ask_fails_where_a_step_fails() {
    for step in [
        AskStep::InitClient,
        AskStep::EnsureCapabilities,
        AskStep::SendStream,
        AskStep::SaveMessage,
    ] {
        assert_eq!(step.advance(false), AskStep::Fail);
        assert_ne!(step.advance(true), AskStep::Fail);
    }
    assert_eq!(AskStep::Fail.advance(true), AskStep::Fail);
    assert_eq!(AskStep::CopyOutput.advance(false), AskStep::CheckThreshold);
    assert_eq!(AskStep::ShowTokens.advance(false), AskStep::InitClient);
}

#[test]
fn compression_always_clears_the_flag() {
    let all = [
        CompressStep::BuildInput,
        CompressStep::InitClient,
        CompressStep::EnsureCapabilities,
        CompressStep::SendMessage,
        CompressStep::ReplaceConversation,
        CompressStep::ClearFlag,
    ];
    for failing in 0..=all.len() {
        let mut step = CompressStep::start();
        let mut cleared = false;
        let mut replaced = false;
        let mut taken = 0;
        while step != CompressStep::Done {
            cleared |= step == CompressStep::ClearFlag;
            replaced |= step == CompressStep::ReplaceConversation;
            step = step.advance(taken != failing);
            taken += 1;
            assert!(taken <= 6);
        }
        assert!(cleared);
        assert_eq!(replaced, failing == 0 || failing >= 4);
    }
    assert_eq!(CompressStep::Done.advance(true), CompressStep::Done);
    assert_eq!(CompressStep::SendMessage.advance(true), CompressStep::ReplaceConversation);
    assert_eq!(CompressStep::SendMessage.advance(false), CompressStep::ClearFlag);
}

#[test]
fn editor_bindings() {
    assert_eq!(menu_name(), "completion_menu");
    assert_eq!(
        extra_keybindings(),
        vec![
            Binding { modifier: Modifier::Plain, key: Key::Tab, event: EditorEvent::MenuOrNext },
            Binding {
                modifier: Modifier::Shift,
                key: Key::BackTab,
                event: EditorEvent::MenuPrevious
            },
            Binding {
                modifier: Modifier::Control,
                key: Key::Enter,
                event: EditorEvent::InsertNewline
            },
        ]
    );
    assert_eq!(create_edit_mode(false), (EditMode::Emacs, vec![Keymap::Emacs]));
    assert_eq!(
        create_edit_mode(true),
        (EditMode::Vi, vec![Keymap::ViNormal, Keymap::ViInsert])
    );
}

#[test]
fn buffer_editor_file_names() {
    assert_eq!(buffer_editor_file(0), "aichat-0.txt");
    assert_eq!(buffer_editor_file(7), "aichat-7.txt");
    assert_eq!(buffer_editor_file(10), "aichat-10.txt");
    assert_eq!(buffer_editor_file(1700000000), "aichat-1700000000.txt");
    assert_eq!(buffer_editor_file(-1), "aichat--1.txt");
    assert_eq!(buffer_editor_file(i64::MAX), "aichat-9223372036854775807.txt");
    assert_eq!(buffer_editor_file(i64::MIN), "aichat--9223372036854775808.txt");
    for n in [0u64, 9, 10, 99, 100, 101, 12345678901234567890, u64::MAX] {
        let mut out = String::from("n=");
        append_decimal(&mut out, n);
        assert_eq!(out, format!("n={n}"));
    }
}

#[test]
fn errors_are_red_when_highlighted() {
    assert_eq!(render_error("boom", false), "boom");
    assert_eq!(render_error("boom", true), "\u{1b}[31mboom\u{1b}[0m");
    assert_eq!(render_error("", true), "\u{1b}[31m\u{1b}[0m");
    assert_eq!(render_error("a\nb", true), "\u{1b}[31ma\nb\u{1b}[0m");
}

#[test]
fn compression_notice_in_the_colour_of_the_theme() {
    assert_eq!(
        compression_notice(false),
        "\n📢 \u{1b}[90mSession compression is being activated because the current tokens exceed `\u{1b}[0m\u{1b}[3;90mcompress_threshold\u{1b}[0m\u{1b}[90m`.\u{1b}[0m\n"
    );
    assert_eq!(
        compression_notice(true),
        "\n📢 \u{1b}[97mSession compression is being activated because the current tokens exceed `\u{1b}[0m\u{1b}[3;97mcompress_threshold\u{1b}[0m\u{1b}[97m`.\u{1b}[0m\n"
    );
}

#[test]
fn waiting_times_and_modes() {
    assert_eq!(GATHER_WINDOW_MS, 50);
    assert_eq!(KEY_POLL_MS, 25);
    assert_eq!(COMPRESSION_WAIT_MS, 100);
    assert_eq!(spinner_label(), " Generating");
    assert_eq!(stream_mode(true), StreamMode::Markdown);
    assert_eq!(stream_mode(false), StreamMode::Raw);
}
