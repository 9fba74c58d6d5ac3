//! What the line editor is set up with: the key bindings that are added to
//! its keymaps, and the name of the file that an outside editor works on.

use vstd::prelude::*;
use vstd::string::StringExecFns;

verus! {

/// The modifier of a key binding.
#[derive(Clone, Copy, PartialEq, Eq, Debug, Structural)]
pub enum Modifier {
    Plain,
    Shift,
    Control,
}

/// The key of a key binding.
#[derive(Clone, Copy, PartialEq, Eq, Debug, Structural)]
pub enum Key {
    Tab,
    BackTab,
    Enter,
}

/// What the editor does on a key binding.
#[derive(Clone, Copy, PartialEq, Eq, Debug, Structural)]
pub enum EditorEvent {
    /// Open the completion menu, or go to its next item where it is open.
    MenuOrNext,
    /// Go to the previous item of the menu.
    MenuPrevious,
    /// Insert a line break without submitting.
    InsertNewline,
}

/// A key binding.
#[derive(Clone, Copy, PartialEq, Eq, Debug, Structural)]
pub struct Binding {
    pub modifier: Modifier,
    pub key: Key,
    pub event: EditorEvent,
}

/// The keymaps of the editor.
#[derive(Clone, Copy, PartialEq, Eq, Debug, Structural)]
pub enum Keymap {
    Emacs,
    ViNormal,
    ViInsert,
}

/// The way of editing.
#[derive(Clone, Copy, PartialEq, Eq, Debug, Structural)]
pub enum EditMode {
    Emacs,
    Vi,
}

/// The name of the completion menu.
pub fn menu_name() -> (name: &'static str)
    ensures
        name@ == "completion_menu"@,
{
    "completion_menu"
}

/// The bindings that every keymap gets on top of its defaults.
pub open spec fn extra_bindings() -> Seq<Binding> {
    seq![
        Binding { modifier: Modifier::Plain, key: Key::Tab, event: EditorEvent::MenuOrNext },
        Binding { modifier: Modifier::Shift, key: Key::BackTab, event: EditorEvent::MenuPrevious },
        Binding { modifier: Modifier::Control, key: Key::Enter, event: EditorEvent::InsertNewline },
    ]
}

/// The bindings that every keymap gets on top of its defaults: Tab for
/// the completion menu, Shift-BackTab to go back in it, Ctrl-Enter for a
/// line break.
pub fn extra_keybindings() -> (v: Vec<Binding>)
    ensures
        v@ == extra_bindings(),
{
    let v = vec![
        Binding { modifier: Modifier::Plain, key: Key::Tab, event: EditorEvent::MenuOrNext },
        Binding { modifier: Modifier::Shift, key: Key::BackTab, event: EditorEvent::MenuPrevious },
        Binding { modifier: Modifier::Control, key: Key::Enter, event: EditorEvent::InsertNewline },
    ];
    assert(v@ =~= extra_bindings());
    v
}

/// The keymaps of a way of editing.
pub open spec fn keymaps_of(mode: EditMode) -> Seq<Keymap> {
    match mode {
        EditMode::Emacs => seq![Keymap::Emacs],
        EditMode::Vi => seq![Keymap::ViNormal, Keymap::ViInsert],
    }
}

/// The way of editing that the configuration asks for, and its keymaps:
/// each of them is to get the extra bindings.
pub fn create_edit_mode(vi: bool) -> (r: (EditMode, Vec<Keymap>))
    ensures
        r.0 == if vi {
            EditMode::Vi
        } else {
            EditMode::Emacs
        },
        r.1@ == keymaps_of(r.0),
{
    if vi {
        let maps = vec![Keymap::ViNormal, Keymap::ViInsert];
        assert(maps@ =~= keymaps_of(EditMode::Vi));
        (EditMode::Vi, maps)
    } else {
        let maps = vec![Keymap::Emacs];
        assert(maps@ =~= keymaps_of(EditMode::Emacs));
        (EditMode::Emacs, maps)
    }
}

/// The character of a decimal digit.
pub open spec fn digit_char(d: int) -> char {
    if d == 0 {
        '0'
    } else if d == 1 {
        '1'
    } else if d == 2 {
        '2'
    } else if d == 3 {
        '3'
    } else if d == 4 {
        '4'
    } else if d == 5 {
        '5'
    } else if d == 6 {
        '6'
    } else if d == 7 {
        '7'
    } else if d == 8 {
        '8'
    } else {
        '9'
    }
}

/// A natural number in decimal, without leading zeros.
pub open spec fn decimal(n: nat) -> Seq<char>
    decreases n,
{
    if n < 10 {
        seq![digit_char(n as int)]
    } else {
        decimal(n / 10).push(digit_char((n % 10) as int))
    }
}

/// An integer in decimal, with a minus sign where it is negative.
pub open spec fn signed_decimal(n: int) -> Seq<char> {
    if n < 0 {
        seq!['-'] + decimal((-n) as nat)
    } else {
        decimal(n as nat)
    }
}

/// The characters of the digits `ds`, last digit first.
pub open spec fn digits_reversed(ds: Seq<u8>) -> Seq<char>
    decreases ds.len(),
{
    if ds.len() == 0 {
        Seq::empty()
    } else {
        seq![digit_char(ds.last() as int)] + digits_reversed(ds.drop_last())
    }
}

fn digit_text(d: u8) -> (s: &'static str)
    requires
        d < 10,
    ensures
        s@ == seq![digit_char(d as int)],
{
    proof {
        reveal_strlit("0");
        reveal_strlit("1");
        reveal_strlit("2");
        reveal_strlit("3");
        reveal_strlit("4");
        reveal_strlit("5");
        reveal_strlit("6");
        reveal_strlit("7");
        reveal_strlit("8");
        reveal_strlit("9");
    }
    let s = if d == 0 {
        "0"
    } else if d == 1 {
        "1"
    } else if d == 2 {
        "2"
    } else if d == 3 {
        "3"
    } else if d == 4 {
        "4"
    } else if d == 5 {
        "5"
    } else if d == 6 {
        "6"
    } else if d == 7 {
        "7"
    } else if d == 8 {
        "8"
    } else {
        "9"
    };
    assert(s@ =~= seq![digit_char(d as int)]);
    s
}

/// Appends `n` in decimal to `out`.
pub fn append_decimal(out: &mut String, n: u64)
    ensures
        final(out)@ == old(out)@ + decimal(n as nat),
{
    let mut digits: Vec<u8> = Vec::new();
    digits.push((n % 10) as u8);
    let mut m: u64 = n / 10;
    proof {
        reveal_with_fuel(digits_reversed, 2);
        assert(digits@.drop_last() =~= Seq::<u8>::empty());
        assert(digits@.last() == n % 10);
        assert(digits_reversed(digits@) =~= seq![digit_char((n % 10) as int)]);
        if m > 0 {
            assert(decimal(n as nat) =~= decimal(m as nat) + digits_reversed(digits@));
        }
    }
    while m > 0
        invariant
            m > 0 ==> decimal(n as nat) == decimal(m as nat) + digits_reversed(digits@),
            m == 0 ==> decimal(n as nat) == digits_reversed(digits@),
            forall|k: int| 0 <= k < digits@.len() ==> digits@[k] < 10,
        decreases m,
    {
        let ghost before = digits@;
        let d: u8 = (m % 10) as u8;
        digits.push(d);
        proof {
            assert(digits@.drop_last() =~= before);
            assert(digits_reversed(digits@) =~= seq![digit_char(d as int)] + digits_reversed(
                before,
            ));
            if m >= 10 {
                assert(decimal(m as nat) + digits_reversed(before) =~= decimal((m / 10) as nat)
                    + digits_reversed(digits@));
            }
        }
        m = m / 10;
    }
    let mut i: usize = digits.len();
    let ghost start = out@;
    proof {
        assert(digits@.take(i as int) =~= digits@);
        assert(out@ + digits_reversed(digits@.take(i as int)) =~= start + decimal(n as nat));
    }
    while i > 0
        invariant
            i <= digits.len(),
            out@ + digits_reversed(digits@.take(i as int)) == start + decimal(n as nat),
            forall|k: int| 0 <= k < digits@.len() ==> digits@[k] < 10,
        decreases i,
    {
        let ghost before = out@;
        proof {
            assert(digits@.take(i as int).drop_last() =~= digits@.take(i - 1));
        }
        out.append(digit_text(digits[i - 1]));
        proof {
            assert(out@ + digits_reversed(digits@.take(i - 1)) =~= before + digits_reversed(
                digits@.take(i as int),
            ));
        }
        i -= 1;
    }
    proof {
        assert(digits@.take(0) =~= Seq::<u8>::empty());
        assert(out@ + digits_reversed(digits@.take(0)) =~= out@);
    }
}

/// The name of the file that an outside editor is given for the line in
/// work: `aichat-`, the time in seconds since the epoch, and `.txt`.
pub fn buffer_editor_file(epoch_seconds: i64) -> (name: String)
    ensures
        name@ == "aichat-"@ + signed_decimal(epoch_seconds as int) + ".txt"@,
{
    let mut name = String::from_str("aichat-");
    if epoch_seconds < 0 {
        proof {
            reveal_strlit("-");
            assert("-"@ =~= seq!['-']);
        }
        name.append("-");
        let magnitude: u64 = (-(epoch_seconds as i128)) as u64;
        append_decimal(&mut name, magnitude);
    } else {
        append_decimal(&mut name, epoch_seconds as u64);
    }
    name.append(".txt");
    assert(name@ =~= "aichat-"@ + signed_decimal(epoch_seconds as int) + ".txt"@);
    name
}

} // verus!
