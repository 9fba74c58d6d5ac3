//! From a submitted line to what the session is asked to do.
//!
//! `dispatch` reads a line and names the action; carrying the action out
//! (talking to the configuration, the model or the clipboard) is left to
//! the caller.

use crate::command::{
    command_table, fence, fenced_text, lemma_parse_command_line, parse_command, parse_command_spec,
    unfence,
};
use crate::text::{
    chars_of, find_sub, index_of, index_of_either, is_space, lemma_trimmed_padded, no_spaces,
    opt_view, scan_char, scan_either, scan_sub, str_eq, texts_view, trim, trimmed,
};
use vstd::pervasive::unreached;
use vstd::prelude::*;

verus! {

/// The usage lines that a command without its argument answers with.
#[derive(Clone, Copy, PartialEq, Eq, Debug, Structural)]
pub enum Usage {
    Model,
    Prompt,
    Role,
    SaveSession,
    Update,
    File,
}

impl Usage {
    pub open spec fn text_spec(self) -> Seq<char> {
        match self {
            Usage::Model => "Usage: .model <name>"@,
            Usage::Prompt => "Usage: .prompt <text>..."@,
            Usage::Role => "Usage: .role <name> [text]..."@,
            Usage::SaveSession => "Usage: .save session [name]"@,
            Usage::Update => "Usage: .set <key> <value>..."@,
            Usage::File => "Usage: .file <files>... [-- <text>...]"@,
        }
    }

    /// The line to show.
    pub fn text(&self) -> (s: &'static str)
        ensures
            s@ == self.text_spec(),
    {
        match self {
            Usage::Model => "Usage: .model <name>",
            Usage::Prompt => "Usage: .prompt <text>...",
            Usage::Role => "Usage: .role <name> [text]...",
            Usage::SaveSession => "Usage: .save session [name]",
            Usage::Update => "Usage: .set <key> <value>...",
            Usage::File => "Usage: .file <files>... [-- <text>...]",
        }
    }
}

/// Why a line was not carried out.
#[derive(Clone, Copy, PartialEq, Eq, Debug, Structural)]
pub enum ReplError {
    /// The line names no command of the table, or a sub-command that the
    /// command does not have.
    UnknownCommand,
    /// The file list of `.file` does not split into words.
    InvalidArgs,
    /// There is no text to copy.
    EmptyText,
}

impl ReplError {
    pub open spec fn message_spec(self) -> Seq<char> {
        match self {
            ReplError::UnknownCommand => "Unknown command. Type \".help\" for more information."@,
            ReplError::InvalidArgs => "Invalid args"@,
            ReplError::EmptyText => "Failed to copy the last output: Empty text"@,
        }
    }

    /// The single line shown to the user.
    pub fn message(&self) -> (s: &'static str)
        ensures
            s@ == self.message_spec(),
            !s@.contains('\n'),
    {
        proof {
            reveal_strlit("Unknown command. Type \".help\" for more information.");
            reveal_strlit("Invalid args");
            reveal_strlit("Failed to copy the last output: Empty text");
        }
        match self {
            ReplError::UnknownCommand => "Unknown command. Type \".help\" for more information.",
            ReplError::InvalidArgs => "Invalid args",
            ReplError::EmptyText => "Failed to copy the last output: Empty text",
        }
    }
}

/// What a submitted line asks for.
#[derive(Clone, PartialEq, Eq, Debug)]
pub enum ReplAction {
    Help,
    SystemInfo,
    RoleInfo,
    SessionInfo,
    SetModel(String),
    SetPrompt(String),
    SetRole(String),
    /// One question under a role that is not made current.
    AskWithRole { role: String, text: String },
    StartSession(Option<String>),
    SaveSession(String),
    UpdateConfig(String),
    CopyLastReply,
    AskWithFiles { text: String, files: Vec<String> },
    ClearRole,
    EndSession,
    ClearMessages,
    Exit,
    /// An ordinary turn of the conversation.
    Ask(String),
    ShowUsage(Usage),
}

/// What a `ReplAction` stands for.
pub enum ActionView {
    Help,
    SystemInfo,
    RoleInfo,
    SessionInfo,
    SetModel(Seq<char>),
    SetPrompt(Seq<char>),
    SetRole(Seq<char>),
    AskWithRole { role: Seq<char>, text: Seq<char> },
    StartSession(Option<Seq<char>>),
    SaveSession(Seq<char>),
    UpdateConfig(Seq<char>),
    CopyLastReply,
    AskWithFiles { text: Seq<char>, files: Seq<Seq<char>> },
    ClearRole,
    EndSession,
    ClearMessages,
    Exit,
    Ask(Seq<char>),
    ShowUsage(Usage),
}

impl View for ReplAction {
    type V = ActionView;

    open spec fn view(&self) -> ActionView {
        match self {
            ReplAction::Help => ActionView::Help,
            ReplAction::SystemInfo => ActionView::SystemInfo,
            ReplAction::RoleInfo => ActionView::RoleInfo,
            ReplAction::SessionInfo => ActionView::SessionInfo,
            ReplAction::SetModel(s) => ActionView::SetModel(s@),
            ReplAction::SetPrompt(s) => ActionView::SetPrompt(s@),
            ReplAction::SetRole(s) => ActionView::SetRole(s@),
            ReplAction::AskWithRole { role, text } => ActionView::AskWithRole {
                role: role@,
                text: text@,
            },
            ReplAction::StartSession(name) => ActionView::StartSession(
                match name {
                    Some(s) => Some(s@),
                    None => None,
                },
            ),
            ReplAction::SaveSession(s) => ActionView::SaveSession(s@),
            ReplAction::UpdateConfig(s) => ActionView::UpdateConfig(s@),
            ReplAction::CopyLastReply => ActionView::CopyLastReply,
            ReplAction::AskWithFiles { text, files } => ActionView::AskWithFiles {
                text: text@,
                files: texts_view(files@),
            },
            ReplAction::ClearRole => ActionView::ClearRole,
            ReplAction::EndSession => ActionView::EndSession,
            ReplAction::ClearMessages => ActionView::ClearMessages,
            ReplAction::Exit => ActionView::Exit,
            ReplAction::Ask(s) => ActionView::Ask(s@),
            ReplAction::ShowUsage(u) => ActionView::ShowUsage(*u),
        }
    }
}

impl ReplAction {
    /// Whether the action ends the read-eval loop.
    pub fn exits(&self) -> (b: bool)
        ensures
            b == (self@ is Exit),
    {
        match self {
            ReplAction::Exit => true,
            _ => false,
        }
    }
}

/// The view of a dispatch result.
pub open spec fn outcome_view(r: Result<ReplAction, ReplError>) -> Result<ActionView, ReplError> {
    match r {
        Ok(a) => Ok(a@),
        Err(e) => Err(e),
    }
}

/// The words of a file list, as a POSIX shell would split them with quote
/// removal as its only expansion; `None` where a quote is left open.
pub uninterp spec fn shell_split(line: Seq<char>) -> Option<Seq<Seq<char>>>;

#[verifier::external_type_specification]
#[verifier::external_body]
pub struct ExParseError(shell_words::ParseError);

/// Calls `shell_words::split`. The words it returns, or the fact that it
/// failed, are by definition `shell_split` of the same text: the splitting
/// itself is taken on trust.
#[verifier::external_body]
fn split_words(line: &str) -> (r: Result<Vec<String>, shell_words::ParseError>)
    ensures
        match r {
            Ok(words) => shell_split(line@) == Some(texts_view(words@)),
            Err(_) => shell_split(line@) is None,
        },
{
    shell_words::split(line)
}

/// The request made by `.file` once its file list has been split: a
/// question with attachments, or `InvalidArgs` where the list did not split.
pub fn file_request(text: &str, words: Result<Vec<String>, shell_words::ParseError>) -> (r: Result<
    ReplAction,
    ReplError,
>)
    ensures
        outcome_view(r) == match words {
            Ok(w) => Ok(ActionView::AskWithFiles { text: text@, files: texts_view(w@) }),
            Err(_) => Err(ReplError::InvalidArgs),
        },
{
    match words {
        Ok(files) => Ok(ReplAction::AskWithFiles { text: text.to_owned(), files }),
        Err(_) => Err(ReplError::InvalidArgs),
    }
}

/// The error of a line that names no command.
pub fn unknown_command() -> (r: Result<(), ReplError>)
    ensures
        r == Err::<(), ReplError>(ReplError::UnknownCommand),
{
    Err(ReplError::UnknownCommand)
}

/// `.info`, `.exit`: an optional sub-command `role` or `session`.
pub open spec fn scoped_action(
    args: Option<Seq<char>>,
    plain: ActionView,
    role: ActionView,
    session: ActionView,
) -> Result<ActionView, ReplError> {
    match args {
        None => Ok(plain),
        Some(a) => if a == "role"@ {
            Ok(role)
        } else if a == "session"@ {
            Ok(session)
        } else {
            Err(ReplError::UnknownCommand)
        },
    }
}

/// `.role <name> [text]`: the name ends at the first space or line break.
pub open spec fn role_action(args: Option<Seq<char>>) -> ActionView {
    match args {
        None => ActionView::ShowUsage(Usage::Role),
        Some(a) => {
            let i = index_of_either(a, 0, '\n', ' ');
            if i < a.len() {
                ActionView::AskWithRole {
                    role: trimmed(a.subrange(0, i)),
                    text: trimmed(a.subrange(i + 1, a.len() as int)),
                }
            } else {
                ActionView::SetRole(a)
            }
        },
    }
}

/// `.save session [name]`.
pub open spec fn save_action(args: Option<Seq<char>>) -> ActionView {
    match args {
        None => ActionView::ShowUsage(Usage::SaveSession),
        Some(a) => {
            let i = index_of(a, 0, ' ');
            let sub = if i < a.len() {
                a.subrange(0, i)
            } else {
                a
            };
            let name = if i < a.len() {
                trimmed(a.subrange(i + 1, a.len() as int))
            } else {
                Seq::empty()
            };
            if sub == "session"@ {
                ActionView::SaveSession(name)
            } else {
                ActionView::ShowUsage(Usage::SaveSession)
            }
        },
    }
}

/// The file list of `.file <files>... [-- <text>...]`.
pub open spec fn file_list(a: Seq<char>) -> Seq<char> {
    let i = find_sub(a, 0, " -- "@);
    if i < a.len() {
        trimmed(a.subrange(0, i))
    } else {
        a
    }
}

/// The question of `.file <files>... [-- <text>...]`.
pub open spec fn file_text(a: Seq<char>) -> Seq<char> {
    let i = find_sub(a, 0, " -- "@);
    if i < a.len() {
        trimmed(a.subrange(i + 4, a.len() as int))
    } else {
        Seq::empty()
    }
}

/// `.file <files>... [-- <text>...]`.
pub open spec fn file_action(args: Option<Seq<char>>) -> Result<ActionView, ReplError> {
    match args {
        None => Ok(ActionView::ShowUsage(Usage::File)),
        Some(a) => match shell_split(file_list(a)) {
            Some(files) => Ok(ActionView::AskWithFiles { text: file_text(a), files }),
            None => Err(ReplError::InvalidArgs),
        },
    }
}

/// A command that needs its argument, and answers with a usage line
/// without it.
pub open spec fn required(args: Option<Seq<char>>, usage: Usage, action: spec_fn(Seq<char>) -> ActionView)
    -> ActionView {
    match args {
        Some(a) => action(a),
        None => ActionView::ShowUsage(usage),
    }
}

/// What a command and its arguments ask for.
pub open spec fn command_action(cmd: Seq<char>, args: Option<Seq<char>>) -> Result<
    ActionView,
    ReplError,
> {
    if cmd == ".help"@ {
        Ok(ActionView::Help)
    } else if cmd == ".info"@ {
        scoped_action(args, ActionView::SystemInfo, ActionView::RoleInfo, ActionView::SessionInfo)
    } else if cmd == ".model"@ {
        Ok(required(args, Usage::Model, |a: Seq<char>| ActionView::SetModel(a)))
    } else if cmd == ".prompt"@ {
        Ok(required(args, Usage::Prompt, |a: Seq<char>| ActionView::SetPrompt(a)))
    } else if cmd == ".role"@ {
        Ok(role_action(args))
    } else if cmd == ".session"@ {
        Ok(ActionView::StartSession(args))
    } else if cmd == ".save"@ {
        Ok(save_action(args))
    } else if cmd == ".set"@ {
        Ok(required(args, Usage::Update, |a: Seq<char>| ActionView::UpdateConfig(a)))
    } else if cmd == ".copy"@ {
        Ok(ActionView::CopyLastReply)
    } else if cmd == ".file"@ {
        file_action(args)
    } else if cmd == ".exit"@ {
        scoped_action(args, ActionView::Exit, ActionView::ClearRole, ActionView::EndSession)
    } else if cmd == ".clear"@ {
        if args == Some("messages"@) {
            Ok(ActionView::ClearMessages)
        } else {
            Err(ReplError::UnknownCommand)
        }
    } else {
        Err(ReplError::UnknownCommand)
    }
}

/// What a submitted line asks for: the text inside its fences, where it has
/// them, is read as a command or else taken as a turn of the conversation.
pub open spec fn dispatch_spec(line: Seq<char>) -> Result<ActionView, ReplError> {
    let body = match fenced_text(line) {
        Some(t) => t,
        None => line,
    };
    match parse_command_spec(body) {
        Some((cmd, args)) => command_action(cmd, args),
        None => Ok(ActionView::Ask(body)),
    }
}

/// A line that is a command word alone, or a command word, a space and
/// an argument without white space at its ends, asks for what the command
/// does with that argument.
pub proof fn lemma_dispatch_command(cmd: Seq<char>, args: Seq<char>)
    requires
        cmd.len() > 0,
        cmd[0] == '.',
        no_spaces(cmd),
        args.len() > 0 ==> !is_space(args.first()) && !is_space(args.last()),
    ensures
        args.len() == 0 ==> dispatch_spec(cmd) == command_action(cmd, None),
        args.len() > 0 ==> dispatch_spec(cmd + seq![' '] + args) == command_action(
            cmd,
            Some(args),
        ),
{
    let none = Seq::<char>::empty();
    let gap = if args.len() == 0 {
        none
    } else {
        seq![' ']
    };
    let line = cmd + gap + args;
    lemma_parse_command_line(none, cmd, gap, args, none);
    assert(none + cmd + gap + args + none =~= line);
    assert(!is_space(line.first())) by {
        assert(line[0] == cmd[0]);
    }
    assert(!is_space(line.last())) by {
        if args.len() > 0 {
            assert(line.last() == args.last());
        } else {
            assert(line.last() == cmd.last());
        }
    }
    lemma_trimmed_padded(none, line, none);
    assert(none + line + none =~= line);
    assert(!fence().is_prefix_of(line)) by {
        if fence().is_prefix_of(line) {
            assert(line.subrange(0, 3)[0] == fence()[0]);
        }
    }
    if args.len() == 0 {
        assert(line =~= cmd);
    } else {
        assert(line =~= cmd + seq![' '] + args);
    }
}

/// Every name of the command table is a line that `dispatch` carries out:
/// none of them is an unknown command.
pub proof fn lemma_table_names_dispatch(i: int)
    requires
        0 <= i < command_table().len(),
    ensures
        dispatch_spec(command_table()[i].name) is Ok,
{
    reveal_strlit(".help");
    reveal_strlit(".info");
    reveal_strlit(".model");
    reveal_strlit(".prompt");
    reveal_strlit(".role");
    reveal_strlit(".session");
    reveal_strlit(".save");
    reveal_strlit(".set");
    reveal_strlit(".copy");
    reveal_strlit(".file");
    reveal_strlit(".exit");
    reveal_strlit(".clear");
    reveal_strlit("role");
    reveal_strlit("session");
    reveal_strlit("messages");
    reveal_strlit(".info role");
    reveal_strlit(".exit role");
    reveal_strlit(".info session");
    reveal_strlit(".save session");
    reveal_strlit(".clear messages");
    reveal_strlit(".exit session");
    let name = command_table()[i].name;
    let none = Seq::<char>::empty();
    if i == 5 {
        lemma_dispatch_command(".info"@, "role"@);
        assert(name =~= ".info"@ + seq![' '] + "role"@);
    } else if i == 6 {
        lemma_dispatch_command(".exit"@, "role"@);
        assert(name =~= ".exit"@ + seq![' '] + "role"@);
    } else if i == 8 {
        lemma_dispatch_command(".info"@, "session"@);
        assert(name =~= ".info"@ + seq![' '] + "session"@);
    } else if i == 9 {
        lemma_dispatch_command(".save"@, "session"@);
        assert(name =~= ".save"@ + seq![' '] + "session"@);
    } else if i == 10 {
        lemma_dispatch_command(".clear"@, "messages"@);
        assert(name =~= ".clear"@ + seq![' '] + "messages"@);
    } else if i == 11 {
        lemma_dispatch_command(".exit"@, "session"@);
        assert(name =~= ".exit"@ + seq![' '] + "session"@);
    } else {
        lemma_dispatch_command(name, none);
    }
}

fn role_request(args: Option<&str>) -> (a: ReplAction)
    ensures
        a@ == role_action(opt_view(args)),
{
    match args {
        None => ReplAction::ShowUsage(Usage::Role),
        Some(a) => {
            let v = chars_of(a);
            let i = scan_either(&v, 0, '\n', ' ');
            if i < v.len() {
                let role = trim(a.substring_char(0, i));
                let text = trim(a.substring_char(i + 1, v.len()));
                ReplAction::AskWithRole { role: role.to_owned(), text: text.to_owned() }
            } else {
                ReplAction::SetRole(a.to_owned())
            }
        },
    }
}

fn save_request(args: Option<&str>) -> (a: ReplAction)
    ensures
        a@ == save_action(opt_view(args)),
{
    match args {
        None => ReplAction::ShowUsage(Usage::SaveSession),
        Some(a) => {
            let v = chars_of(a);
            let i = scan_char(&v, 0, ' ');
            if i < v.len() {
                if str_eq(a.substring_char(0, i), "session") {
                    let name = trim(a.substring_char(i + 1, v.len()));
                    ReplAction::SaveSession(name.to_owned())
                } else {
                    ReplAction::ShowUsage(Usage::SaveSession)
                }
            } else if str_eq(a, "session") {
                ReplAction::SaveSession(String::new())
            } else {
                ReplAction::ShowUsage(Usage::SaveSession)
            }
        },
    }
}

fn file_command(args: Option<&str>) -> (r: Result<ReplAction, ReplError>)
    ensures
        outcome_view(r) == file_action(opt_view(args)),
{
    match args {
        None => Ok(ReplAction::ShowUsage(Usage::File)),
        Some(a) => {
            let v = chars_of(a);
            let sep = chars_of(" -- ");
            proof {
                reveal_strlit(" -- ");
            }
            let i = scan_sub(&v, 0, &sep);
            if i < v.len() {
                let files = trim(a.substring_char(0, i));
                let text = trim(a.substring_char(i + 4, v.len()));
                file_request(text, split_words(files))
            } else {
                proof {
                    reveal_strlit("");
                    assert(""@ =~= Seq::<char>::empty());
                }
                file_request("", split_words(a))
            }
        },
    }
}

fn scoped_request(args: Option<&str>, plain: ReplAction, role: ReplAction, session: ReplAction) -> (r:
    Result<ReplAction, ReplError>)
    ensures
        outcome_view(r) == scoped_action(opt_view(args), plain@, role@, session@),
{
    match args {
        None => Ok(plain),
        Some(a) => {
            if str_eq(a, "role") {
                Ok(role)
            } else if str_eq(a, "session") {
                Ok(session)
            } else {
                unknown_command()?;
                unreached()
            }
        },
    }
}

/// Reads a submitted line and names what it asks for. A line between
/// `:::` fences stands for the text inside them. A line whose first word
/// begins with a dot is a command, and an error where the command or its
/// sub-command is not known; any other line is a turn of the conversation.
pub fn dispatch(line: &str) -> (r: Result<ReplAction, ReplError>)
    ensures
        outcome_view(r) == dispatch_spec(line@),
{
    let body = match unfence(line) {
        Some(text) => text,
        None => line,
    };
    match parse_command(body) {
        None => Ok(ReplAction::Ask(body.to_owned())),
        Some((cmd, args)) => {
            if str_eq(cmd, ".help") {
                Ok(ReplAction::Help)
            } else if str_eq(cmd, ".info") {
                scoped_request(
                    args,
                    ReplAction::SystemInfo,
                    ReplAction::RoleInfo,
                    ReplAction::SessionInfo,
                )
            } else if str_eq(cmd, ".model") {
                match args {
                    Some(name) => Ok(ReplAction::SetModel(name.to_owned())),
                    None => Ok(ReplAction::ShowUsage(Usage::Model)),
                }
            } else if str_eq(cmd, ".prompt") {
                match args {
                    Some(text) => Ok(ReplAction::SetPrompt(text.to_owned())),
                    None => Ok(ReplAction::ShowUsage(Usage::Prompt)),
                }
            } else if str_eq(cmd, ".role") {
                Ok(role_request(args))
            } else if str_eq(cmd, ".session") {
                match args {
                    Some(name) => Ok(ReplAction::StartSession(Some(name.to_owned()))),
                    None => Ok(ReplAction::StartSession(None)),
                }
            } else if str_eq(cmd, ".save") {
                Ok(save_request(args))
            } else if str_eq(cmd, ".set") {
                match args {
                    Some(pair) => Ok(ReplAction::UpdateConfig(pair.to_owned())),
                    None => Ok(ReplAction::ShowUsage(Usage::Update)),
                }
            } else if str_eq(cmd, ".copy") {
                Ok(ReplAction::CopyLastReply)
            } else if str_eq(cmd, ".file") {
                file_command(args)
            } else if str_eq(cmd, ".exit") {
                scoped_request(args, ReplAction::Exit, ReplAction::ClearRole, ReplAction::EndSession)
            } else if str_eq(cmd, ".clear") {
                match args {
                    Some(what) => {
                        if str_eq(what, "messages") {
                            Ok(ReplAction::ClearMessages)
                        } else {
                            unknown_command()?;
                            unreached()
                        }
                    },
                    None => {
                        unknown_command()?;
                        unreached()
                    },
                }
            } else {
                unknown_command()?;
                unreached()
            }
        },
    }
}

} // verus!
