//! The command language of the prompt: dot-commands, the `:::` fence for
//! multi-line input, and the table of commands with the states in which
//! each one is offered.

use crate::text::{
    all_spaces, chars_of, is_space, lemma_skip_spaces, lemma_skip_spaces_to, lemma_skip_word,
    lemma_skip_word_to, lemma_trimmed, lemma_trimmed_padded, no_spaces, opt_view, scan_spaces,
    scan_word, skip_spaces, skip_word, trim, trimmed,
};
use vstd::prelude::*;

verus! {

/// Where the session stands with respect to roles and chat sessions.
#[derive(Clone, Copy, PartialEq, Eq, Debug, Structural)]
pub enum State {
    Neither,
    InRole,
    InSession,
    InRoleAndSession,
}

impl State {
    /// The state of a configuration with or without an active role and
    /// with or without an active session.
    pub fn from_flags(in_role: bool, in_session: bool) -> (s: State)
        ensures
            s.has_role() == in_role,
            s.has_session() == in_session,
    {
        if in_role {
            if in_session {
                State::InRoleAndSession
            } else {
                State::InRole
            }
        } else {
            if in_session {
                State::InSession
            } else {
                State::Neither
            }
        }
    }

    pub open spec fn has_role(self) -> bool {
        self == State::InRole || self == State::InRoleAndSession
    }

    pub open spec fn has_session(self) -> bool {
        self == State::InSession || self == State::InRoleAndSession
    }

    pub open spec fn all_spec() -> Seq<State> {
        seq![State::Neither, State::InRole, State::InSession, State::InRoleAndSession]
    }

    pub open spec fn in_role_spec() -> Seq<State> {
        seq![State::InRole, State::InRoleAndSession]
    }

    pub open spec fn in_session_spec() -> Seq<State> {
        seq![State::InSession, State::InRoleAndSession]
    }

    pub open spec fn not_in_session_spec() -> Seq<State> {
        seq![State::Neither, State::InRole]
    }

    /// Every state.
    pub fn all() -> (v: Vec<State>)
        ensures
            v@ == Self::all_spec(),
            forall|s: State| v@.contains(s),
    {
        let v = vec![State::Neither, State::InRole, State::InSession, State::InRoleAndSession];
        assert(v@ =~= Self::all_spec());
        assert forall|s: State| v@.contains(s) by {
            match s {
                State::Neither => assert(v@[0] == s),
                State::InRole => assert(v@[1] == s),
                State::InSession => assert(v@[2] == s),
                State::InRoleAndSession => assert(v@[3] == s),
            }
        }
        v
    }

    /// The states with an active role.
    pub fn in_role() -> (v: Vec<State>)
        ensures
            v@ == Self::in_role_spec(),
            forall|s: State| v@.contains(s) <==> s.has_role(),
    {
        let v = vec![State::InRole, State::InRoleAndSession];
        assert(v@ =~= Self::in_role_spec());
        assert forall|s: State| s.has_role() implies v@.contains(s) by {
            if s == State::InRole {
                assert(v@[0] == s);
            } else {
                assert(v@[1] == s);
            }
        }
        v
    }

    /// The states with an active session.
    pub fn in_session() -> (v: Vec<State>)
        ensures
            v@ == Self::in_session_spec(),
            forall|s: State| v@.contains(s) <==> s.has_session(),
    {
        let v = vec![State::InSession, State::InRoleAndSession];
        assert(v@ =~= Self::in_session_spec());
        assert forall|s: State| s.has_session() implies v@.contains(s) by {
            if s == State::InSession {
                assert(v@[0] == s);
            } else {
                assert(v@[1] == s);
            }
        }
        v
    }

    /// The states without an active session.
    pub fn not_in_session() -> (v: Vec<State>)
        ensures
            v@ == Self::not_in_session_spec(),
            forall|s: State| v@.contains(s) <==> !s.has_session(),
    {
        let v = vec![State::Neither, State::InRole];
        assert(v@ =~= Self::not_in_session_spec());
        assert forall|s: State| !s.has_session() implies v@.contains(s) by {
            if s == State::Neither {
                assert(v@[0] == s);
            } else {
                assert(v@[1] == s);
            }
        }
        v
    }

    /// The states in which the role may be changed: those outside a
    /// session.
    pub fn able_change_role() -> (v: Vec<State>)
        ensures
            v@ == Self::not_in_session_spec(),
            forall|s: State| v@.contains(s) <==> !s.has_session(),
    {
        Self::not_in_session()
    }

    /// The states in which the role is fixed: those inside a session.
    pub fn unable_change_role() -> (v: Vec<State>)
        ensures
            v@ == Self::in_session_spec(),
            forall|s: State| v@.contains(s) <==> s.has_session(),
    {
        Self::in_session()
    }
}

/// What a `ReplCommand` stands for.
pub struct CommandView {
    pub name: Seq<char>,
    pub description: Seq<char>,
    pub valid_states: Seq<State>,
}

/// One entry of the command table.
#[derive(Debug)]
pub struct ReplCommand {
    name: &'static str,
    description: &'static str,
    valid_states: Vec<State>,
}

impl View for ReplCommand {
    type V = CommandView;

    closed spec fn view(&self) -> CommandView {
        CommandView {
            name: self.name@,
            description: self.description@,
            valid_states: self.valid_states@,
        }
    }
}

impl ReplCommand {
    pub fn new(name: &'static str, desc: &'static str, valid_states: Vec<State>) -> (c: Self)
        ensures
            c@ == (CommandView { name: name@, description: desc@, valid_states: valid_states@ }),
    {
        Self { name, description: desc, valid_states }
    }

    /// Whether the command is offered in `state`.
    pub fn is_valid(&self, state: &State) -> (b: bool)
        ensures
            b == self@.valid_states.contains(*state),
    {
        let mut i: usize = 0;
        while i < self.valid_states.len()
            invariant
                i <= self.valid_states.len(),
                forall|k: int| 0 <= k < i ==> self.valid_states@[k] != *state,
            decreases self.valid_states.len() - i,
        {
            if self.valid_states[i] == *state {
                return true;
            }
            i += 1;
        }
        false
    }

    pub fn name(&self) -> (s: &'static str)
        ensures
            s@ == self@.name,
    {
        self.name
    }

    pub fn description(&self) -> (s: &'static str)
        ensures
            s@ == self@.description,
    {
        self.description
    }
}

impl Clone for ReplCommand {
    fn clone(&self) -> (c: Self)
        ensures
            c@ == self@,
    {
        let mut states: Vec<State> = Vec::new();
        let mut i: usize = 0;
        while i < self.valid_states.len()
            invariant
                i <= self.valid_states.len(),
                states@ == self.valid_states@.take(i as int),
            decreases self.valid_states.len() - i,
        {
            states.push(self.valid_states[i]);
            assert(self.valid_states@.take(i + 1) =~= self.valid_states@.take(i as int).push(
                self.valid_states@[i as int],
            ));
            i += 1;
        }
        assert(self.valid_states@.take(i as int) =~= self.valid_states@);
        Self { name: self.name, description: self.description, valid_states: states }
    }
}

/// The views of a vector of commands.
pub open spec fn command_views(v: Seq<ReplCommand>) -> Seq<CommandView> {
    v.map_values(|c: ReplCommand| c@)
}

/// The command table: name, description, and the states in which the
/// command is offered.
pub open spec fn command_table() -> Seq<CommandView> {
    seq![
        CommandView { name: ".help"@, description: "Show this help message"@, valid_states: State::all_spec() },
        CommandView { name: ".info"@, description: "View system info"@, valid_states: State::all_spec() },
        CommandView { name: ".model"@, description: "Change the current LLM"@, valid_states: State::all_spec() },
        CommandView {
            name: ".prompt"@,
            description: "Make a temporary role using a prompt"@,
            valid_states: State::not_in_session_spec(),
        },
        CommandView {
            name: ".role"@,
            description: "Switch to a specific role"@,
            valid_states: State::not_in_session_spec(),
        },
        CommandView { name: ".info role"@, description: "View role info"@, valid_states: State::in_role_spec() },
        CommandView { name: ".exit role"@, description: "Leave the role"@, valid_states: State::in_role_spec() },
        CommandView {
            name: ".session"@,
            description: "Begin a chat session"@,
            valid_states: State::not_in_session_spec(),
        },
        CommandView {
            name: ".info session"@,
            description: "View session info"@,
            valid_states: State::in_session_spec(),
        },
        CommandView {
            name: ".save session"@,
            description: "Save the chat to file"@,
            valid_states: State::in_session_spec(),
        },
        CommandView {
            name: ".clear messages"@,
            description: "Erase messages in the current session"@,
            valid_states: State::in_session_spec(),
        },
        CommandView {
            name: ".exit session"@,
            description: "End the current session"@,
            valid_states: State::in_session_spec(),
        },
        CommandView {
            name: ".file"@,
            description: "Include files with the message"@,
            valid_states: State::all_spec(),
        },
        CommandView { name: ".set"@, description: "Adjust settings"@, valid_states: State::all_spec() },
        CommandView { name: ".copy"@, description: "Copy the last response"@, valid_states: State::all_spec() },
        CommandView { name: ".exit"@, description: "Exit the REPL"@, valid_states: State::all_spec() },
    ]
}

/// Builds the command table.
pub fn repl_commands() -> (v: Vec<ReplCommand>)
    ensures
        command_views(v@) == command_table(),
        v@.len() == 16,
{
    let v = vec![
        ReplCommand::new(".help", "Show this help message", State::all()),
        ReplCommand::new(".info", "View system info", State::all()),
        ReplCommand::new(".model", "Change the current LLM", State::all()),
        ReplCommand::new(".prompt", "Make a temporary role using a prompt", State::able_change_role()),
        ReplCommand::new(".role", "Switch to a specific role", State::able_change_role()),
        ReplCommand::new(".info role", "View role info", State::in_role()),
        ReplCommand::new(".exit role", "Leave the role", State::in_role()),
        ReplCommand::new(".session", "Begin a chat session", State::not_in_session()),
        ReplCommand::new(".info session", "View session info", State::in_session()),
        ReplCommand::new(".save session", "Save the chat to file", State::in_session()),
        ReplCommand::new(
            ".clear messages",
            "Erase messages in the current session",
            State::unable_change_role(),
        ),
        ReplCommand::new(".exit session", "End the current session", State::in_session()),
        ReplCommand::new(".file", "Include files with the message", State::all()),
        ReplCommand::new(".set", "Adjust settings", State::all()),
        ReplCommand::new(".copy", "Copy the last response", State::all()),
        ReplCommand::new(".exit", "Exit the REPL", State::all()),
    ];
    assert(command_views(v@) =~= command_table());
    v
}

/// The entries of the table that are offered in `state`, in table order.
pub open spec fn offered(state: State) -> Seq<CommandView> {
    command_table().filter(|c: CommandView| c.valid_states.contains(state))
}

/// The commands to offer for completion in `state`.
pub fn completions(state: State) -> (v: Vec<ReplCommand>)
    ensures
        command_views(v@) == offered(state),
{
    let table = repl_commands();
    let ghost pred = |c: CommandView| c.valid_states.contains(state);
    let ghost views = command_views(table@);
    let mut out: Vec<ReplCommand> = Vec::new();
    let mut i: usize = 0;
    proof {
        views.take(0).lemma_filter_len(pred);
        assert(command_views(out@) =~= views.take(0).filter(pred));
    }
    while i < table.len()
        invariant
            i <= table.len(),
            views == command_views(table@),
            pred == (|c: CommandView| c.valid_states.contains(state)),
            command_views(out@) == views.take(i as int).filter(pred),
        decreases table.len() - i,
    {
        let ghost before = command_views(out@);
        proof {
            assert(views.take(i + 1) =~= views.take(i as int).push(views[i as int]));
            views.take(i as int).lemma_filter_push(views[i as int], pred);
            assert(views[i as int] == table@[i as int]@);
        }
        if table[i].is_valid(&state) {
            out.push(table[i].clone());
            assert(command_views(out@) =~= before.push(views[i as int]));
        }
        i += 1;
    }
    assert(views.take(i as int) =~= views);
    out
}

/// A command is offered in a state exactly when the state belongs to the
/// command's valid states.
pub proof fn lemma_offered_iff_valid(state: State, i: int)
    requires
        0 <= i < command_table().len(),
    ensures
        offered(state).contains(command_table()[i]) <==> command_table()[i].valid_states.contains(
            state,
        ),
{
    let pred = |c: CommandView| c.valid_states.contains(state);
    let table = command_table();
    if pred(table[i]) {
        table.lemma_filter_contains(pred, i);
    }
    if offered(state).contains(table[i]) {
        let j = choose|j: int| 0 <= j < offered(state).len() && offered(state)[j] == table[i];
        table.lemma_filter_pred(pred, j);
    }
}

/// What `parse_command` finds in a line: after leading white space a word
/// that begins with a dot, and the rest of the line, trimmed, where any
/// is left.
pub open spec fn parse_command_spec(line: Seq<char>) -> Option<(Seq<char>, Option<Seq<char>>)> {
    let start = skip_spaces(line, 0);
    if start < line.len() && line[start] == '.' {
        let end = skip_word(line, start);
        let rest = trimmed(line.subrange(end, line.len() as int));
        Some(
            (
                line.subrange(start, end),
                if rest.len() == 0 {
                    None
                } else {
                    Some(rest)
                },
            ),
        )
    } else {
        None
    }
}

/// Splits a line into a dot-command and its arguments. A line whose first
/// word does not begin with a dot is no command.
pub fn parse_command<'a>(line: &'a str) -> (r: Option<(&'a str, Option<&'a str>)>)
    ensures
        match r {
            Some((cmd, args)) => parse_command_spec(line@) == Some((cmd@, opt_view(args))),
            None => parse_command_spec(line@) is None,
        },
        r matches Some((cmd, _)) ==> cmd@.len() > 0 && cmd@[0] == '.' && forall|k: int|
            0 <= k < cmd@.len() ==> !is_space(#[trigger] cmd@[k]),
        r matches Some((_, Some(args))) ==> args@.len() > 0 && !is_space(args@.first())
            && !is_space(args@.last()),
{
    let v = chars_of(line);
    let start = scan_spaces(&v, 0);
    if start < v.len() && v[start] == '.' {
        let end = scan_word(&v, start);
        proof {
            lemma_skip_word(v@, start as int);
            lemma_trimmed(v@.subrange(end as int, v.len() as int));
        }
        let cmd = line.substring_char(start, end);
        let args = trim(line.substring_char(end, v.len()));
        if args.unicode_len() == 0 {
            Some((cmd, None))
        } else {
            Some((cmd, Some(args)))
        }
    } else {
        None
    }
}

/// A line made of white space, a word that begins with a dot, and then
/// either white space alone or white space, arguments and white space, is
/// the command of that word with those arguments.
pub proof fn lemma_parse_command_line(
    lead: Seq<char>,
    cmd: Seq<char>,
    gap: Seq<char>,
    args: Seq<char>,
    trail: Seq<char>,
)
    requires
        all_spaces(lead),
        cmd.len() > 0,
        cmd[0] == '.',
        no_spaces(cmd),
        all_spaces(gap),
        args.len() > 0 ==> gap.len() > 0 && !is_space(args.first()) && !is_space(args.last()),
        all_spaces(trail),
    ensures
        parse_command_spec(lead + cmd + gap + args + trail) == Some(
            (
                cmd,
                if args.len() == 0 {
                    None
                } else {
                    Some(args)
                },
            ),
        ),
{
    let s = lead + cmd + gap + args + trail;
    let a = lead.len() as int;
    let b = a + cmd.len();
    assert(s[a] == cmd[0]);
    assert forall|k: int| 0 <= k < a implies is_space(#[trigger] s[k]) by {
        assert(s[k] == lead[k]);
    }
    lemma_skip_spaces_to(s, 0, a);
    assert forall|k: int| a <= k < b implies !is_space(#[trigger] s[k]) by {
        assert(s[k] == cmd[k - a]);
    }
    let rest = gap + args + trail;
    assert(s.subrange(b, s.len() as int) =~= rest);
    if b < s.len() {
        assert(s[b] == rest[0]);
        if gap.len() > 0 {
            assert(rest[0] == gap[0]);
        } else {
            assert(rest[0] == trail[0]);
        }
    }
    lemma_skip_word_to(s, a, b);
    assert(s.subrange(a, b) =~= cmd);
    lemma_trimmed_padded(gap, args, trail);
}

/// The line of a command takes the form that `lemma_parse_command_line`
/// starts from; no other line is a command.
pub proof fn lemma_parse_command_form(line: Seq<char>)
    requires
        parse_command_spec(line) is Some,
    ensures
        ({
            let start = skip_spaces(line, 0);
            let end = skip_word(line, start);
            let parsed = parse_command_spec(line).unwrap();
            let cmd = parsed.0;
            &&& all_spaces(line.subrange(0, start))
            &&& cmd == line.subrange(start, end)
            &&& cmd.len() > 0 && cmd[0] == '.' && no_spaces(cmd)
            &&& line == line.subrange(0, start) + cmd + line.subrange(end, line.len() as int)
            &&& match parsed.1 {
                Some(args) => args == trimmed(line.subrange(end, line.len() as int)) && args.len()
                    > 0,
                None => all_spaces(line.subrange(end, line.len() as int)),
            }
        }),
{
    let start = skip_spaces(line, 0);
    lemma_skip_spaces(line, 0);
    lemma_skip_word(line, start);
    let end = skip_word(line, start);
    lemma_trimmed(line.subrange(end, line.len() as int));
    assert(line =~= line.subrange(0, start) + line.subrange(start, end) + line.subrange(
        end,
        line.len() as int,
    ));
}

/// The marker that opens and closes a multi-line submission.
pub open spec fn fence() -> Seq<char> {
    seq![':', ':', ':']
}

/// Whether a trimmed submission opens with a fence and closes with another.
pub open spec fn is_fenced(t: Seq<char>) -> bool {
    t.len() >= 6 && fence().is_prefix_of(t) && fence().is_suffix_of(t)
}

/// The text between the fences of a fenced submission, trimmed.
pub open spec fn fenced_text(line: Seq<char>) -> Option<Seq<char>> {
    let t = trimmed(line);
    if is_fenced(t) {
        Some(trimmed(t.subrange(3, t.len() - 3)))
    } else {
        None
    }
}

/// A submission is incomplete when it opens a fence that it does not close.
pub open spec fn is_incomplete(line: Seq<char>) -> bool {
    let t = trimmed(line);
    fence().is_prefix_of(t) && !is_fenced(t)
}

/// Whether `v` holds a fence at position `at`.
fn fence_at(v: &Vec<char>, at: usize) -> (b: bool)
    requires
        at + 3 <= v.len(),
    ensures
        b == (v@.subrange(at as int, at + 3) == fence()),
{
    let b = v[at] == ':' && v[at + 1] == ':' && v[at + 2] == ':';
    proof {
        let w = v@.subrange(at as int, at + 3);
        if b {
            assert(w =~= fence());
        } else {
            assert(w[0] == v@[at as int] && w[1] == v@[at + 1] && w[2] == v@[at + 2]);
        }
    }
    b
}

/// The text inside the fences of a multi-line submission, or `None` where
/// the line is not fenced.
pub fn unfence<'a>(line: &'a str) -> (r: Option<&'a str>)
    ensures
        opt_view(r) == fenced_text(line@),
{
    let t = trim(line);
    let v = chars_of(t);
    let n = v.len();
    if n >= 6 && fence_at(&v, 0) && fence_at(&v, n - 3) {
        Some(trim(t.substring_char(3, n - 3)))
    } else {
        proof {
            if n >= 3 {
                assert(fence().is_prefix_of(t@) <==> t@.subrange(0, 3) == fence());
                assert(fence().is_suffix_of(t@) <==> t@.subrange(n - 3, n as int) == fence());
            }
        }
        None
    }
}

/// Whether a submission can be sent as it stands.
#[derive(Clone, Copy, PartialEq, Eq, Debug, Structural)]
pub enum Validation {
    Complete,
    Incomplete,
}

/// Decides whether the editor should keep reading lines.
pub struct ReplValidator;

impl ReplValidator {
    pub fn validate(&self, line: &str) -> (r: Validation)
        ensures
            r == if is_incomplete(line@) {
                Validation::Incomplete
            } else {
                Validation::Complete
            },
    {
        let t = trim(line);
        let v = chars_of(t);
        let n = v.len();
        proof {
            if n >= 3 {
                assert(fence().is_prefix_of(t@) <==> t@.subrange(0, 3) == fence());
                assert(fence().is_suffix_of(t@) <==> t@.subrange(n - 3, n as int) == fence());
            }
        }
        if n >= 3 && fence_at(&v, 0) && !(n >= 6 && fence_at(&v, n - 3)) {
            Validation::Incomplete
        } else {
            Validation::Complete
        }
    }
}

/// A submission that opens with a fence is complete exactly when its
/// fenced text can be taken out.
pub proof fn lemma_complete_iff_unfenced(line: Seq<char>)
    requires
        fence().is_prefix_of(trimmed(line)),
    ensures
        !is_incomplete(line) <==> fenced_text(line) is Some,
{
}

/// A submission made of white space, a fence, a text between white space,
/// another fence and white space stands for that text, trimmed.
pub proof fn lemma_fenced_submission(
    lead: Seq<char>,
    inner: Seq<char>,
    trail: Seq<char>,
)
    requires
        all_spaces(lead),
        all_spaces(trail),
    ensures
        fenced_text(lead + fence() + inner + fence() + trail) == Some(trimmed(inner)),
        !is_incomplete(lead + fence() + inner + fence() + trail),
{
    let core = fence() + inner + fence();
    assert(!is_space(core.first()));
    assert(core.last() == fence()[2]);
    assert(lead + fence() + inner + fence() + trail =~= lead + core + trail);
    lemma_trimmed_padded(lead, core, trail);
    assert(core.subrange(0, 3) =~= fence());
    assert(core.subrange(core.len() - 3, core.len() as int) =~= fence());
    assert(core.subrange(3, core.len() - 3) =~= inner);
}

} // verus!
