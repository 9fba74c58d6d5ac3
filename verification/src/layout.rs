//! Layout arithmetic: how wide a text is on the screen, how many rows it
//! takes, and where its last line begins.

use crate::term::{ops_view, push_op, TermOp, TermOpView};
use crate::text::{chars_of, last_index_of, scan_char, scan_char_back};
use vstd::prelude::*;
use vstd::string::StringExecFns;

verus! {

/// The number of terminal columns that `text` takes: wide characters count
/// twice, characters without width and ANSI escape sequences not at all.
pub uninterp spec fn display_width(text: Seq<char>) -> nat;

/// Calls `textwrap::core::display_width`. Its answer is by definition
/// `display_width` of the same text: the width tables are taken on trust.
#[verifier::external_body]
pub(crate) fn text_width(text: &str) -> (w: usize)
    ensures
        w == display_width(text@),
{
    textwrap::core::display_width(text)
}

/// The rows that a text of the given width takes on a screen of `columns`
/// columns: the width, at least 1, divided by `columns` and rounded up.
pub open spec fn rows_needed(width: nat, columns: nat) -> nat {
    let w = if width == 0 {
        1
    } else {
        width
    };
    ((w + columns - 1) / (columns as int)) as nat
}

/// `rows_needed` as a row count of the terminal, where there is one: the
/// screen has a column, and the count fits.
pub open spec fn rows_fit(width: nat, columns: nat) -> Option<u16> {
    if columns > 0 && rows_needed(width, columns) <= u16::MAX {
        Some(rows_needed(width, columns) as u16)
    } else {
        None
    }
}

/// `rows_needed` is never 0, and for a text with width it is the least
/// number of rows of `columns` columns that hold the width.
pub proof fn lemma_rows_needed(width: nat, columns: nat)
    requires
        columns > 0,
    ensures
        rows_needed(width, columns) >= 1,
        width > 0 ==> (rows_needed(width, columns) - 1) * columns < width <= rows_needed(
            width,
            columns,
        ) * columns,
{
    let w: int = if width == 0 {
        1
    } else {
        width as int
    };
    let c = columns as int;
    let r = (w + c - 1) / c;
    assert(r >= 1 && (r - 1) * c < w <= r * c) by (nonlinear_arith)
        requires
            w >= 1,
            c >= 1,
            r == (w + c - 1) / c,
    ;
}

/// The rows for a text of the given width, or `None` where the screen has
/// no column or the count does not fit a row number.
pub fn rows_for_width(width: usize, columns: u16) -> (rows: Option<u16>)
    ensures
        rows == rows_fit(width as nat, columns as nat),
{
    if columns == 0 {
        return None;
    }
    let w: u128 = if width == 0 {
        1
    } else {
        width as u128
    };
    let rows: u128 = (w + columns as u128 - 1) / (columns as u128);
    if rows <= u16::MAX as u128 {
        Some(rows as u16)
    } else {
        None
    }
}

/// The rows that `text` takes on a screen of `columns` columns, or `None`
/// where the screen has no column or the count does not fit a row number.
pub fn need_rows(text: &str, columns: u16) -> (rows: Option<u16>)
    ensures
        rows == rows_fit(display_width(text@), columns as nat),
        rows matches Some(r) ==> r >= 1,
        rows matches Some(r) ==> (display_width(text@) > 0 ==> (r - 1) * columns < display_width(
            text@,
        ) <= r * columns),
{
    proof {
        if columns > 0 {
            lemma_rows_needed(display_width(text@), columns as nat);
        }
    }
    rows_for_width(text_width(text), columns)
}

/// What comes before the last line break of `s` (nothing where `s` has no
/// line break).
pub open spec fn line_head(s: Seq<char>) -> Seq<char> {
    let i = last_index_of(s, s.len() as int, '\n');
    if i < 0 {
        Seq::empty()
    } else {
        s.subrange(0, i)
    }
}

/// What comes after the last line break of `s` (all of `s` where it has no
/// line break).
pub open spec fn line_tail(s: Seq<char>) -> Seq<char> {
    let i = last_index_of(s, s.len() as int, '\n');
    if i < 0 {
        s
    } else {
        s.subrange(i + 1, s.len() as int)
    }
}

/// Where `last_index_of` stops.
pub proof fn lemma_last_index_of(s: Seq<char>, to: int, c: char)
    requires
        0 <= to <= s.len(),
    ensures
        -1 <= last_index_of(s, to, c) < to,
        forall|k: int| last_index_of(s, to, c) < k < to ==> #[trigger] s[k] != c,
        last_index_of(s, to, c) >= 0 ==> s[last_index_of(s, to, c)] == c,
    decreases to,
{
    if 0 < to && s[to - 1] != c {
        lemma_last_index_of(s, to - 1, c);
    }
}

/// The head and the tail of a text, with the line break between them, make
/// up the text; the tail holds no line break.
pub proof fn lemma_head_tail(s: Seq<char>)
    ensures
        !line_tail(s).contains('\n'),
        s.contains('\n') ==> s == line_head(s) + seq!['\n'] + line_tail(s),
        !s.contains('\n') ==> line_head(s) == Seq::<char>::empty() && line_tail(s) == s,
{
    let i = last_index_of(s, s.len() as int, '\n');
    lemma_last_index_of(s, s.len() as int, '\n');
    let t = line_tail(s);
    if t.contains('\n') {
        let k = choose|k: int| 0 <= k < t.len() && t[k] == '\n';
        if i < 0 {
            assert(s[k] == '\n');
        } else {
            assert(s[i + 1 + k] == '\n');
        }
    }
    if s.contains('\n') {
        let k = choose|k: int| 0 <= k < s.len() && s[k] == '\n';
        assert(i >= 0);
        assert(s =~= line_head(s) + seq!['\n'] + line_tail(s));
    } else {
        if i >= 0 {
            assert(s.contains(s[i]));
        }
    }
}

/// Splitting a head, a line break and a tail without line breaks gives the
/// head and the tail back.
pub proof fn lemma_split_joined(head: Seq<char>, tail: Seq<char>)
    requires
        !tail.contains('\n'),
    ensures
        line_head(head + seq!['\n'] + tail) == head,
        line_tail(head + seq!['\n'] + tail) == tail,
{
    let s = head + seq!['\n'] + tail;
    let i = last_index_of(s, s.len() as int, '\n');
    lemma_last_index_of(s, s.len() as int, '\n');
    assert(s[head.len() as int] == '\n');
    if i > head.len() {
        assert(tail[i - head.len() - 1] == '\n');
        assert(tail.contains('\n'));
    }
    assert(i == head.len());
    assert(s.subrange(0, i) =~= head);
    assert(s.subrange(i + 1, s.len() as int) =~= tail);
}

/// Splits `text` at its last line break into what comes before and what
/// comes after; a text without line break is all tail.
pub fn split_line_tail<'a>(text: &'a str) -> (r: (&'a str, &'a str))
    ensures
        r.0@ == line_head(text@),
        r.1@ == line_tail(text@),
        !r.1@.contains('\n'),
        text@.contains('\n') ==> text@ == r.0@ + seq!['\n'] + r.1@,
        !text@.contains('\n') ==> r.0@.len() == 0 && r.1@ == text@,
{
    proof {
        lemma_head_tail(text@);
    }
    let v = chars_of(text);
    let i = scan_char_back(&v, v.len(), '\n');
    if i == 0 {
        (text.substring_char(0, 0), text)
    } else {
        (text.substring_char(0, i - 1), text.substring_char(i, v.len()))
    }
}

/// Whether `text` holds a line break.
pub fn has_line_break(text: &str) -> (b: bool)
    ensures
        b == text@.contains('\n'),
{
    let v = chars_of(text);
    let i = scan_char(&v, 0, '\n');
    proof {
        if i < v.len() {
            assert(v@[i as int] == '\n');
        } else if v@.contains('\n') {
            let k = choose|k: int| 0 <= k < v@.len() && v@[k] == '\n';
            assert(v@[k] != '\n');
        }
    }
    i < v.len()
}

/// Four spaces: what a tab is shown as.
pub open spec fn tab_stop() -> Seq<char> {
    seq![' ', ' ', ' ', ' ']
}

/// `s` with every tab replaced by four spaces.
pub open spec fn tabs_expanded(s: Seq<char>) -> Seq<char>
    decreases s.len(),
{
    if s.len() == 0 {
        Seq::empty()
    } else if s.last() == '\t' {
        tabs_expanded(s.drop_last()) + tab_stop()
    } else {
        tabs_expanded(s.drop_last()).push(s.last())
    }
}

/// Expanding tabs goes through concatenation.
pub proof fn lemma_tabs_expanded_add(a: Seq<char>, b: Seq<char>)
    ensures
        tabs_expanded(a + b) == tabs_expanded(a) + tabs_expanded(b),
    decreases b.len(),
{
    if b.len() == 0 {
        assert(a + b =~= a);
        assert(tabs_expanded(a) + tabs_expanded(b) =~= tabs_expanded(a));
    } else {
        assert((a + b).drop_last() =~= a + b.drop_last());
        assert((a + b).last() == b.last());
        lemma_tabs_expanded_add(a, b.drop_last());
        if b.last() == '\t' {
            assert(tabs_expanded(a + b) =~= tabs_expanded(a) + tabs_expanded(b));
        } else {
            assert(tabs_expanded(a + b) =~= tabs_expanded(a) + tabs_expanded(b));
        }
    }
}

/// A text without tabs is its own expansion.
pub proof fn lemma_tabs_expanded_plain(s: Seq<char>)
    requires
        !s.contains('\t'),
    ensures
        tabs_expanded(s) == s,
    decreases s.len(),
{
    if s.len() > 0 {
        assert(s.last() != '\t') by {
            assert(s.contains(s[s.len() - 1]));
        }
        assert forall|c: char| s.drop_last().contains(c) implies s.contains(c) by {
            let k = choose|k: int| 0 <= k < s.drop_last().len() && s.drop_last()[k] == c;
            assert(s[k] == c);
        }
        lemma_tabs_expanded_plain(s.drop_last());
        assert(s.drop_last().push(s.last()) =~= s);
    }
}

/// `text` with every tab replaced by four spaces.
pub fn expand_tabs(text: &str) -> (out: String)
    ensures
        out@ == tabs_expanded(text@),
{
    let v = chars_of(text);
    let mut out = String::new();
    let mut i: usize = 0;
    proof {
        assert(v@.take(0) =~= Seq::<char>::empty());
    }
    while i < v.len()
        invariant
            i <= v.len(),
            v@ == text@,
            out@ == tabs_expanded(v@.take(i as int)),
        decreases v.len() - i,
    {
        let j = scan_char(&v, i, '\t');
        out.append(text.substring_char(i, j));
        proof {
            let run = v@.subrange(i as int, j as int);
            if run.contains('\t') {
                let k = choose|k: int| 0 <= k < run.len() && run[k] == '\t';
                assert(v@[i + k] != '\t');
            }
            lemma_tabs_expanded_plain(run);
            lemma_tabs_expanded_add(v@.take(i as int), run);
            assert(v@.take(i as int) + run =~= v@.take(j as int));
        }
        if j < v.len() {
            proof {
                reveal_strlit("    ");
                assert("    "@ =~= tab_stop());
                assert(v@.take(j + 1).drop_last() =~= v@.take(j as int));
            }
            out.append("    ");
            i = j + 1;
        } else {
            i = j;
        }
    }
    assert(v@.take(i as int) =~= v@);
    out
}

/// The lines of `s`: the pieces between its line breaks. A text without
/// line break is one line; a text that ends in a line break has an empty
/// last line.
pub open spec fn lines(s: Seq<char>) -> Seq<Seq<char>>
    decreases s.len(),
{
    let i = last_index_of(s, s.len() as int, '\n');
    if 0 <= i < s.len() {
        lines(s.subrange(0, i)).push(s.subrange(i + 1, s.len() as int))
    } else {
        seq![s]
    }
}

/// A text without line break is one line.
pub proof fn lemma_lines_plain(s: Seq<char>)
    requires
        !s.contains('\n'),
    ensures
        lines(s) == seq![s],
{
    let i = last_index_of(s, s.len() as int, '\n');
    lemma_last_index_of(s, s.len() as int, '\n');
    if i >= 0 {
        assert(s.contains(s[i]));
    }
}

/// The lines of two texts joined by a line break are the lines of the
/// first, then the lines of the second.
pub proof fn lemma_lines_joined(a: Seq<char>, b: Seq<char>)
    ensures
        lines(a + seq!['\n'] + b) == lines(a) + lines(b),
    decreases b.len(),
{
    let s = a + seq!['\n'] + b;
    lemma_last_index_of(s, s.len() as int, '\n');
    lemma_last_index_of(b, b.len() as int, '\n');
    lemma_head_tail(b);
    assert(s[a.len() as int] == '\n');
    if !b.contains('\n') {
        lemma_split_joined(a, b);
        lemma_lines_plain(b);
        assert(lines(s) =~= lines(a) + lines(b));
    } else {
        let head = line_head(b);
        let tail = line_tail(b);
        assert(s =~= (a + seq!['\n'] + head) + seq!['\n'] + tail);
        lemma_split_joined(a + seq!['\n'] + head, tail);
        lemma_lines_joined(a, head);
        assert(lines(s) =~= lines(a) + lines(b));
    }
}

/// What printing one line of a block takes: the line, a line break, and a
/// move to the left edge.
pub open spec fn line_ops(line: Seq<char>, columns: u16) -> Seq<TermOpView> {
    seq![TermOpView::Print(line), TermOpView::Print(seq!['\n']), TermOpView::MoveLeft(columns)]
}

/// What printing lines takes.
pub open spec fn lines_ops(ls: Seq<Seq<char>>, columns: u16) -> Seq<TermOpView>
    decreases ls.len(),
{
    if ls.len() == 0 {
        Seq::empty()
    } else {
        lines_ops(ls.drop_last(), columns) + line_ops(ls.last(), columns)
    }
}

/// Printing lines one run after another is printing them all.
pub proof fn lemma_lines_ops_add(a: Seq<Seq<char>>, b: Seq<Seq<char>>, columns: u16)
    ensures
        lines_ops(a + b, columns) == lines_ops(a, columns) + lines_ops(b, columns),
    decreases b.len(),
{
    if b.len() == 0 {
        assert(a + b =~= a);
        assert(lines_ops(a, columns) + lines_ops(b, columns) =~= lines_ops(a, columns));
    } else {
        assert((a + b).drop_last() =~= a + b.drop_last());
        assert((a + b).last() == b.last());
        lemma_lines_ops_add(a, b.drop_last(), columns);
        assert(lines_ops(a + b, columns) =~= lines_ops(a, columns) + lines_ops(b, columns));
    }
}

/// What printing a block takes.
pub open spec fn block_ops(text: Seq<char>, columns: u16) -> Seq<TermOpView> {
    lines_ops(lines(text), columns)
}

/// Printing two blocks one after the other is printing them joined by a
/// line break.
pub proof fn lemma_block_ops_joined(a: Seq<char>, b: Seq<char>, columns: u16)
    ensures
        block_ops(a + seq!['\n'] + b, columns) == block_ops(a, columns) + block_ops(b, columns),
{
    lemma_lines_joined(a, b);
    lemma_lines_ops_add(lines(a), lines(b), columns);
}

/// The operations that print `text` line by line, each line followed by a
/// line break and a move of `columns` to the left, and the number of lines.
pub fn print_block(text: &str, columns: u16) -> (r: (Vec<TermOp>, usize))
    ensures
        ops_view(r.0@) == block_ops(text@, columns),
        r.1 == lines(text@).len(),
        r.1 >= 1,
{
    let v = chars_of(text);
    let mut ops: Vec<TermOp> = Vec::new();
    let mut from: usize = 0;
    let ghost mut done: Seq<Seq<char>> = Seq::empty();
    proof {
        assert(v@.subrange(0, v@.len() as int) =~= v@);
        assert(done + lines(v@) =~= lines(v@));
        assert(ops_view(ops@) =~= lines_ops(done, columns));
    }
    loop
        invariant_except_break
            from <= v.len(),
            done + lines(v@.subrange(from as int, v@.len() as int)) == lines(v@),
        invariant
            v@ == text@,
            ops_view(ops@) == lines_ops(done, columns),
            ops@.len() == 3 * done.len(),
        ensures
            done == lines(v@),
            done.len() >= 1,
        decreases v.len() - from,
    {
        let i = scan_char(&v, from, '\n');
        let line = text.substring_char(from, i);
        proof {
            let next = done.push(line@);
            assert(next.drop_last() =~= done);
            assert(lines_ops(next, columns) =~= lines_ops(done, columns) + line_ops(line@, columns));
            reveal_strlit("\n");
            assert("\n"@ =~= seq!['\n']);
        }
        let ghost before = ops_view(ops@);
        push_op(&mut ops, TermOp::Print(String::from_str(line)));
        push_op(&mut ops, TermOp::Print(String::from_str("\n")));
        push_op(&mut ops, TermOp::MoveLeft(columns));
        assert(ops_view(ops@) =~= before + line_ops(line@, columns));
        proof {
            let rest = v@.subrange(from as int, v@.len() as int);
            if line@.contains('\n') {
                let k = choose|k: int| 0 <= k < line@.len() && line@[k] == '\n';
                assert(v@[from + k] != '\n');
            }
            lemma_lines_plain(line@);
            if i < v.len() {
                let after = v@.subrange(i + 1, v@.len() as int);
                assert(rest =~= line@ + seq!['\n'] + after);
                lemma_lines_joined(line@, after);
                assert(done.push(line@) + lines(after) =~= done + lines(rest));
            } else {
                assert(rest =~= line@);
                assert(done.push(line@) =~= done + lines(rest));
            }
            done = done.push(line@);
        }
        if i < v.len() {
            from = i + 1;
        } else {
            break;
        }
    }
    let num = ops.len() / 3;
    (ops, num)
}

} // verus!
