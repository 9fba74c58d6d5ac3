//! The help text of the prompt.

use crate::command::{command_table, command_views, repl_commands, CommandView};
use vstd::prelude::*;
use vstd::string::StringExecFns;

verus! {

/// `n` spaces.
pub open spec fn spaces(n: nat) -> Seq<char> {
    Seq::new(n, |i: int| ' ')
}

/// One line of the help text: the name of the command, filled up with
/// spaces to 24 characters, a space, and the description.
pub open spec fn help_line(c: CommandView) -> Seq<char> {
    let fill = if c.name.len() < 24 {
        (24 - c.name.len()) as nat
    } else {
        0
    };
    c.name + spaces(fill) + seq![' '] + c.description
}

/// The help lines of the commands, with a line break between two of them.
pub open spec fn help_lines(table: Seq<CommandView>) -> Seq<char>
    decreases table.len(),
{
    if table.len() == 0 {
        Seq::empty()
    } else if table.len() == 1 {
        help_line(table[0])
    } else {
        help_lines(table.drop_last()) + seq!['\n'] + help_line(table.last())
    }
}

/// What follows the table in the help text.
pub open spec fn help_footer() -> Seq<char> {
    "\n\nType ::: to start multi-line editing, type ::: to finish it.\nPress Ctrl+O to open an editor to edit line input.\nPress Ctrl+C to cancel the response, Ctrl+D to exit the REPL"@
}

/// The help text: one line for each command of the table, then the hints
/// on multi-line input and on the keys.
pub fn repl_help() -> (text: String)
    ensures
        text@ == help_lines(command_table()) + help_footer(),
{
    let table = repl_commands();
    let ghost views = command_views(table@);
    let mut text = String::new();
    let mut i: usize = 0;
    proof {
        reveal_strlit(" ");
        reveal_strlit("\n");
        assert(views.take(0) =~= Seq::<CommandView>::empty());
    }
    while i < table.len()
        invariant
            i <= table.len(),
            views == command_views(table@),
            text@ == help_lines(views.take(i as int)),
            " "@ == seq![' '],
            "\n"@ == seq!['\n'],
        decreases table.len() - i,
    {
        let ghost before = text@;
        let ghost c = views[i as int];
        assert(c == table@[i as int]@);
        if i > 0 {
            text.append("\n");
        }
        let name = table[i].name();
        text.append(name);
        let mut width = name.unicode_len();
        let ghost named = text@;
        assert(spaces(0) =~= Seq::<char>::empty());
        while width < 24
            invariant
                width <= 24 || width == c.name.len(),
                width >= c.name.len(),
                text@ == named + spaces((width - c.name.len()) as nat),
                " "@ == seq![' '],
            decreases 24 - width,
        {
            text.append(" ");
            assert(spaces((width - c.name.len()) as nat) + seq![' '] =~= spaces(
                (width + 1 - c.name.len()) as nat,
            ));
            width += 1;
        }
        text.append(" ");
        text.append(table[i].description());
        proof {
            let done = views.take(i + 1);
            assert(done.drop_last() =~= views.take(i as int));
            assert(done.last() == c);
            if i == 0 {
                assert(done[0] == c);
                assert(text@ =~= help_line(c));
            } else {
                assert(text@ =~= before + seq!['\n'] + help_line(c));
            }
        }
        i += 1;
    }
    assert(views.take(i as int) =~= views);
    text.append(
        "\n\nType ::: to start multi-line editing, type ::: to finish it.\nPress Ctrl+O to open an editor to edit line input.\nPress Ctrl+C to cancel the response, Ctrl+D to exit the REPL",
    );
    text
}

} // verus!
