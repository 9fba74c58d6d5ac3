use aichat_core::command::{
    completions, parse_command, repl_commands, unfence, ReplValidator, State, Validation,
};
use aichat_core::dispatch::{
    dispatch, file_request, unknown_command, ReplAction, ReplError, Usage,
};
use aichat_core::help::repl_help;

fn text(s: &str) -> String {
    s.to_string()
}

#[test]
fn test_process_command_line() {
    assert_eq!(parse_command(" ."), Some((".", None)));
    assert_eq!(parse_command(" .role"), Some((".role", None)));
    assert_eq!(parse_command(" .role  "), Some((".role", None)));
    assert_eq!(
        parse_command(" .set dry_run true"),
        Some((".set", Some("dry_run true")))
    );
    assert_eq!(
        parse_command(" .set dry_run true  "),
        Some((".set", Some("dry_run true")))
    );
    assert_eq!(
        parse_command(".prompt \nabc\n"),
        Some((".prompt", Some("abc")))
    );
}

#[test]
fn parse_command_needs_a_leading_dot() {
    assert_eq!(parse_command(""), None);
    assert_eq!(parse_command("   "), None);
    assert_eq!(parse_command("hello"), None);
    assert_eq!(parse_command("a .help"), None);
    assert_eq!(parse_command(":::"), None);
}

#[test]
fn parse_command_takes_the_whole_first_word() {
    assert_eq!(parse_command(".a.b  c  d "), Some((".a.b", Some("c  d"))));
    assert_eq!(parse_command(".."), Some(("..", None)));
    assert_eq!(parse_command("\t.help\tme"), Some((".help", Some("me"))));
}

#[test]
fn parse_command_knows_unicode_white_space() {
    assert_eq!(
        parse_command("\u{3000}.set\u{a0}k\u{2003}v\u{2028}"),
        Some((".set", Some("k\u{2003}v")))
    );
    // U+200B is no white space: it belongs to the word.
    assert_eq!(parse_command(".set\u{200b}x"), Some((".set\u{200b}x", None)));
}

#[test]
fn multi_line_fence_is_taken_off() {
    assert_eq!(unfence(":::\nhello\nworld\n:::"), Some("hello\nworld"));
    assert_eq!(
        ReplValidator.validate(":::\nhello\nworld\n:::"),
        Validation::Complete
    );
    assert_eq!(
        dispatch(":::\nhello\nworld\n:::"),
        Ok(ReplAction::Ask(text("hello\nworld")))
    );
}

#[test]
fn unfence_leaves_other_lines_alone() {
    assert_eq!(unfence("hello"), None);
    assert_eq!(unfence(":::"), None);
    assert_eq!(unfence(":::::"), None);
    assert_eq!(unfence("::: open"), None);
    assert_eq!(unfence("closed :::"), None);
    assert_eq!(unfence("::::::"), Some(""));
    assert_eq!(unfence("  ::: a ::: b :::  "), Some("a ::: b"));
    assert_eq!(unfence("::::a::::"), Some(":a:"));
}

#[test]
fn validator_waits_for_the_closing_fence() {
    let v = ReplValidator;
    assert_eq!(v.validate(""), Validation::Complete);
    assert_eq!(v.validate("hello"), Validation::Complete);
    assert_eq!(v.validate(".set a b"), Validation::Complete);
    assert_eq!(v.validate(":::"), Validation::Incomplete);
    assert_eq!(v.validate("  :::  "), Validation::Incomplete);
    assert_eq!(v.validate(":::::"), Validation::Incomplete);
    assert_eq!(v.validate("::: first line"), Validation::Incomplete);
    assert_eq!(v.validate("::: first\nsecond"), Validation::Incomplete);
    assert_eq!(v.validate("::::::"), Validation::Complete);
    assert_eq!(v.validate("::: first\nsecond :::"), Validation::Complete);
    assert_eq!(v.validate("  :::\nfoo\n:::  \n"), Validation::Complete);
    assert_eq!(v.validate("text :::"), Validation::Complete);
}

#[test]
fn validator_and_unfence_agree() {
    let lines = [
        ":::", ":::a", ":::a:::", "::::::", " ::: x\ny ::: ", ":::::", "::: :::", "a:::", "",
    ];
    for line in lines {
        let opens = line.trim().starts_with(":::");
        let complete = ReplValidator.validate(line) == Validation::Complete;
        if opens {
            assert_eq!(complete, unfence(line).is_some(), "{line:?}");
        } else {
            assert!(complete, "{line:?}");
            assert_eq!(unfence(line), None, "{line:?}");
        }
    }
}

#[test]
fn dispatch_help_and_info() {
    assert_eq!(dispatch(".help"), Ok(ReplAction::Help));
    assert_eq!(dispatch("  .help me please"), Ok(ReplAction::Help));
    assert_eq!(dispatch(".info"), Ok(ReplAction::SystemInfo));
    assert_eq!(dispatch(".info role"), Ok(ReplAction::RoleInfo));
    assert_eq!(dispatch(".info  session "), Ok(ReplAction::SessionInfo));
    assert_eq!(dispatch(".info model"), Err(ReplError::UnknownCommand));
    assert_eq!(dispatch(".info role x"), Err(ReplError::UnknownCommand));
}

#[test]
fn dispatch_commands_with_one_argument() {
    assert_eq!(dispatch(".model gpt-4"), Ok(ReplAction::SetModel(text("gpt-4"))));
    assert_eq!(dispatch(".model"), Ok(ReplAction::ShowUsage(Usage::Model)));
    assert_eq!(
        dispatch(".prompt you are\na cat"),
        Ok(ReplAction::SetPrompt(text("you are\na cat")))
    );
    assert_eq!(dispatch(".prompt  "), Ok(ReplAction::ShowUsage(Usage::Prompt)));
    assert_eq!(
        dispatch(" .set dry_run true  "),
        Ok(ReplAction::UpdateConfig(text("dry_run true")))
    );
    assert_eq!(dispatch(".set"), Ok(ReplAction::ShowUsage(Usage::Update)));
    assert_eq!(dispatch(".copy"), Ok(ReplAction::CopyLastReply));
    assert_eq!(dispatch(".copy that"), Ok(ReplAction::CopyLastReply));
}

#[test]
fn dispatch_role() {
    assert_eq!(dispatch(".role"), Ok(ReplAction::ShowUsage(Usage::Role)));
    assert_eq!(dispatch(".role coder"), Ok(ReplAction::SetRole(text("coder"))));
    assert_eq!(
        dispatch(".role coder write a loop"),
        Ok(ReplAction::AskWithRole { role: text("coder"), text: text("write a loop") })
    );
    assert_eq!(
        dispatch(".role coder\nwrite a loop\n"),
        Ok(ReplAction::AskWithRole { role: text("coder"), text: text("write a loop") })
    );
    assert_eq!(
        dispatch(".role coder\t  x"),
        Ok(ReplAction::AskWithRole { role: text("coder"), text: text("x") })
    );
    // A tab alone does not end the name.
    assert_eq!(dispatch(".role a\tb"), Ok(ReplAction::SetRole(text("a\tb"))));
}

#[test]
fn dispatch_session_and_save() {
    assert_eq!(dispatch(".session"), Ok(ReplAction::StartSession(None)));
    assert_eq!(
        dispatch(".session work"),
        Ok(ReplAction::StartSession(Some(text("work"))))
    );
    assert_eq!(dispatch(".save session"), Ok(ReplAction::SaveSession(text(""))));
    assert_eq!(
        dispatch(".save session   notes "),
        Ok(ReplAction::SaveSession(text("notes")))
    );
    assert_eq!(dispatch(".save"), Ok(ReplAction::ShowUsage(Usage::SaveSession)));
    assert_eq!(dispatch(".save role"), Ok(ReplAction::ShowUsage(Usage::SaveSession)));
    assert_eq!(
        dispatch(".save sessions x"),
        Ok(ReplAction::ShowUsage(Usage::SaveSession))
    );
    // Only a space ends the sub-command.
    assert_eq!(
        dispatch(".save session\tx"),
        Ok(ReplAction::ShowUsage(Usage::SaveSession))
    );
}

#[test]
fn dispatch_file() {
    assert_eq!(dispatch(".file"), Ok(ReplAction::ShowUsage(Usage::File)));
    assert_eq!(
        dispatch(".file a.txt b.txt -- explain  this"),
        Ok(ReplAction::AskWithFiles {
            text: text("explain  this"),
            files: vec![text("a.txt"), text("b.txt")],
        })
    );
    assert_eq!(
        dispatch(".file 'my file.txt' \"x y\" z\\ w"),
        Ok(ReplAction::AskWithFiles {
            text: text(""),
            files: vec![text("my file.txt"), text("x y"), text("z w")],
        })
    );
    assert_eq!(
        dispatch(".file a --"),
        Ok(ReplAction::AskWithFiles { text: text(""), files: vec![text("a"), text("--")] })
    );
    assert_eq!(dispatch(".file \"open"), Err(ReplError::InvalidArgs));
    assert_eq!(dispatch(".file 'a -- b"), Err(ReplError::InvalidArgs));
}

#[test]
fn file_request_maps_the_split() {
    assert_eq!(
        file_request("why", shell_words::split("a b")),
        Ok(ReplAction::AskWithFiles { text: text("why"), files: vec![text("a"), text("b")] })
    );
    assert_eq!(
        file_request("why", shell_words::split("'a")),
        Err(ReplError::InvalidArgs)
    );
}

#[test]
fn dispatch_exit_and_clear() {
    assert_eq!(dispatch(".exit"), Ok(ReplAction::Exit));
    assert_eq!(dispatch(".exit role"), Ok(ReplAction::ClearRole));
    assert_eq!(dispatch(".exit session"), Ok(ReplAction::EndSession));
    assert_eq!(dispatch(".exit now"), Err(ReplError::UnknownCommand));
    assert_eq!(dispatch(".clear messages"), Ok(ReplAction::ClearMessages));
    assert_eq!(dispatch(".clear"), Err(ReplError::UnknownCommand));
    assert_eq!(dispatch(".clear all"), Err(ReplError::UnknownCommand));
    assert!(ReplAction::Exit.exits());
    assert!(!ReplAction::EndSession.exits());
    assert!(!ReplAction::Ask(text(".exit")).exits());
}

#[test]
fn dispatch_unknown_commands() {
    assert_eq!(dispatch("."), Err(ReplError::UnknownCommand));
    assert_eq!(dispatch(".nope"), Err(ReplError::UnknownCommand));
    assert_eq!(dispatch(".HELP"), Err(ReplError::UnknownCommand));
    assert_eq!(dispatch(".helpme"), Err(ReplError::UnknownCommand));
    assert_eq!(unknown_command(), Err(ReplError::UnknownCommand));
}

#[test]
fn dispatch_plain_lines_are_questions() {
    assert_eq!(dispatch("hello world"), Ok(ReplAction::Ask(text("hello world"))));
    assert_eq!(dispatch("  hi  "), Ok(ReplAction::Ask(text("  hi  "))));
    assert_eq!(dispatch(""), Ok(ReplAction::Ask(text(""))));
    assert_eq!(dispatch("what is .help"), Ok(ReplAction::Ask(text("what is .help"))));
}

#[test]
fn dispatch_reads_commands_inside_fences() {
    assert_eq!(
        dispatch(":::\n.set a b\n:::"),
        Ok(ReplAction::UpdateConfig(text("a b")))
    );
    assert_eq!(
        dispatch("::: .prompt line one\nline two :::"),
        Ok(ReplAction::SetPrompt(text("line one\nline two")))
    );
    assert_eq!(dispatch(":::.exit:::"), Ok(ReplAction::Exit));
}

#[test]
fn messages_of_errors_and_usage() {
    assert_eq!(
        ReplError::UnknownCommand.message(),
        "Unknown command. Type \".help\" for more information."
    );
    assert_eq!(ReplError::InvalidArgs.message(), "Invalid args");
    assert_eq!(
        ReplError::EmptyText.message(),
        "Failed to copy the last output: Empty text"
    );
    assert_eq!(Usage::Model.text(), "Usage: .model <name>");
    assert_eq!(Usage::Prompt.text(), "Usage: .prompt <text>...");
    assert_eq!(Usage::Role.text(), "Usage: .role <name> [text]...");
    assert_eq!(Usage::SaveSession.text(), "Usage: .save session [name]");
    assert_eq!(Usage::Update.text(), "Usage: .set <key> <value>...");
    assert_eq!(Usage::File.text(), "Usage: .file <files>... [-- <text>...]");
}

fn names(state: State) -> Vec<&'static str> {
    completions(state).iter().map(|c| c.name()).collect()
}

#[test]
fn completions_by_state() {
    assert_eq!(
        names(State::Neither),
        vec![
            ".help", ".info", ".model", ".prompt", ".role", ".session", ".file", ".set", ".copy",
            ".exit"
        ]
    );
    assert_eq!(
        names(State::InRole),
        vec![
            ".help", ".info", ".model", ".prompt", ".role", ".info role", ".exit role",
            ".session", ".file", ".set", ".copy", ".exit"
        ]
    );
    assert_eq!(
        names(State::InSession),
        vec![
            ".help", ".info", ".model", ".info session", ".save session", ".clear messages",
            ".exit session", ".file", ".set", ".copy", ".exit"
        ]
    );
    assert_eq!(
        names(State::InRoleAndSession),
        vec![
            ".help", ".info", ".model", ".info role", ".exit role", ".info session",
            ".save session", ".clear messages", ".exit session", ".file", ".set", ".copy",
            ".exit"
        ]
    );
}

#[test]
fn a_command_is_offered_iff_its_states_hold_the_state() {
    let table = repl_commands();
    assert_eq!(table.len(), 16);
    for state in State::all() {
        let offered = names(state);
        for command in &table {
            assert_eq!(
                offered.contains(&command.name()),
                command.is_valid(&state),
                "{} in {:?}",
                command.name(),
                state
            );
        }
    }
}

#[test]
fn states_from_flags() {
    assert_eq!(State::from_flags(false, false), State::Neither);
    assert_eq!(State::from_flags(true, false), State::InRole);
    assert_eq!(State::from_flags(false, true), State::InSession);
    assert_eq!(State::from_flags(true, true), State::InRoleAndSession);
    assert_eq!(State::in_role(), vec![State::InRole, State::InRoleAndSession]);
    assert_eq!(State::in_session(), vec![State::InSession, State::InRoleAndSession]);
    assert_eq!(State::not_in_session(), vec![State::Neither, State::InRole]);
    assert_eq!(State::able_change_role(), vec![State::Neither, State::InRole]);
    assert_eq!(
        State::unable_change_role(),
        vec![State::InSession, State::InRoleAndSession]
    );
}

#[test]
fn command_table_entries() {
    let table = repl_commands();
    assert_eq!(table[0].name(), ".help");
    assert_eq!(table[0].description(), "Show this help message");
    assert_eq!(table[10].name(), ".clear messages");
    assert_eq!(table[10].description(), "Erase messages in the current session");
    assert!(table[10].is_valid(&State::InSession));
    assert!(!table[10].is_valid(&State::InRole));
    assert!(table[3].is_valid(&State::InRole));
    assert!(!table[3].is_valid(&State::InRoleAndSession));
    let copy = table[5].clone();
    assert_eq!(copy.name(), ".info role");
    assert!(copy.is_valid(&State::InRoleAndSession));
    assert!(!copy.is_valid(&State::InSession));
}

#[test]
fn help_text_lists_every_command() {
    let help = repl_help();
    let lines: Vec<&str> = help.split('\n').collect();
    assert_eq!(lines.len(), 16 + 4);
    assert_eq!(lines[0], ".help                    Show this help message");
    assert_eq!(lines[5], ".info role               View role info");
    assert_eq!(
        lines[10],
        ".clear messages          Erase messages in the current session"
    );
    assert_eq!(lines[15], ".exit                    Exit the REPL");
    assert_eq!(lines[16], "");
    assert_eq!(
        lines[17],
        "Type ::: to start multi-line editing, type ::: to finish it."
    );
    assert_eq!(lines[18], "Press Ctrl+O to open an editor to edit line input.");
    assert_eq!(
        lines[19],
        "Press Ctrl+C to cancel the response, Ctrl+D to exit the REPL"
    );
    let table = repl_commands();
    for (line, command) in lines.iter().zip(table.iter()) {
        assert_eq!(
            *line,
            format!("{:<24} {}", command.name(), command.description())
        );
    }
}

#[test]
fn every_name_of_the_table_is_carried_out() {
    for command in repl_commands() {
        assert!(dispatch(command.name()).is_ok(), "{}", command.name());
    }
    assert_eq!(dispatch(".save session"), Ok(ReplAction::SaveSession(text(""))));
    assert_eq!(dispatch(".info role"), Ok(ReplAction::RoleInfo));
    assert_eq!(dispatch(".clear messages"), Ok(ReplAction::ClearMessages));
}
