//! The streaming renderer's bookkeeping.
//!
//! A reply arrives in chunks. The text after the last line break is kept
//! in a buffer and redrawn with every chunk; what comes before a line break
//! is committed as a finished block and never drawn again. The renderer
//! here owns the buffer and the number of rows that it occupies on the
//! screen. It neither renders markdown nor touches the terminal: for each
//! chunk it says what to erase and what to have rendered, and, given the
//! rendered text, what to print.

use crate::layout::{
    block_ops, display_width, expand_tabs, has_line_break, lemma_head_tail, lemma_lines_joined,
    lemma_rows_needed, lemma_split_joined, lemma_tabs_expanded_add, line_head, line_tail, lines,
    need_rows, print_block, rows_fit, rows_needed, split_line_tail, tabs_expanded, text_width,
};
use crate::term::{append_ops, ops_view, push_op, TermOp, TermOpView};
use crate::text::opt_view;
use vstd::prelude::*;
use vstd::string::StringExecFns;

verus! {

/// What a `StreamRenderer` stands for.
pub struct RenderState {
    /// The text after the last committed line break.
    pub buffer: Seq<char>,
    /// The rows that the rendered buffer occupies.
    pub buffer_rows: nat,
    /// The width of the screen.
    pub columns: nat,
}

/// The state in which a stream starts.
pub open spec fn initial_state(columns: nat) -> RenderState {
    RenderState { buffer: Seq::empty(), buffer_rows: 1, columns }
}

/// The row on which the cursor really stands. Some terminals report the
/// row below a line that filled the width exactly; then the row above is
/// meant.
pub open spec fn settled_row(column: u16, row: u16, buffer_width: nat, columns: nat) -> int {
    if column == 0 && row > 0 && buffer_width == columns {
        row - 1
    } else {
        row as int
    }
}

/// The operations that put the cursor where the buffer's rows begin. Where
/// the buffer began above the top of the screen, the screen is scrolled
/// first.
pub open spec fn reposition_ops(
    column: u16,
    row: u16,
    buffer_width: nat,
    buffer_rows: nat,
    columns: nat,
) -> Seq<TermOpView> {
    let at = settled_row(column, row, buffer_width, columns);
    if at + 1 >= buffer_rows {
        seq![TermOpView::MoveTo { column: 0, row: (at + 1 - buffer_rows) as u16 }]
    } else {
        seq![
            TermOpView::ScrollUp((buffer_rows - at - 1) as u16),
            TermOpView::MoveTo { column: 0, row: 0 },
        ]
    }
}

/// Where the buffer's rows begin at row `top` and the cursor is reported
/// on the last of them, or, by a terminal that reports the row below a
/// full line, one row lower at column 0, the cursor is put on row `top`;
/// where `top` lies above the screen, the screen is scrolled by as many
/// rows as are missing and the cursor is put on its first row.
pub proof fn lemma_reposition_reaches_top(
    top: int,
    column: u16,
    row: u16,
    buffer_width: nat,
    buffer_rows: nat,
    columns: nat,
)
    requires
        1 <= buffer_rows <= u16::MAX,
        top + buffer_rows - 1 == settled_row(column, row, buffer_width, columns),
    ensures
        reposition_ops(column, row, buffer_width, buffer_rows, columns) == if top >= 0 {
            seq![TermOpView::MoveTo { column: 0, row: top as u16 }]
        } else {
            seq![TermOpView::ScrollUp((-top) as u16), TermOpView::MoveTo { column: 0, row: 0 }]
        },
        column == 0 && row > 0 && buffer_width == columns ==> top + buffer_rows == row,
        !(column == 0 && row > 0 && buffer_width == columns) ==> top + buffer_rows - 1 == row,
{
}

/// Computes `reposition_ops` from the cursor position that the terminal
/// reports, the width of the buffer and the rows that it occupies.
pub fn reposition(column: u16, row: u16, buffer_width: usize, buffer_rows: u16, columns: u16) -> (ops:
    Vec<TermOp>)
    requires
        buffer_rows >= 1,
    ensures
        ops_view(ops@) == reposition_ops(
            column,
            row,
            buffer_width as nat,
            buffer_rows as nat,
            columns as nat,
        ),
{
    let at: u16 = if column == 0 && row > 0 && buffer_width == columns as usize {
        row - 1
    } else {
        row
    };
    let mut ops: Vec<TermOp> = Vec::new();
    if at as u32 + 1 >= buffer_rows as u32 {
        let to: u16 = (at as u32 + 1 - buffer_rows as u32) as u16;
        push_op(&mut ops, TermOp::MoveTo { column: 0, row: to });
    } else {
        push_op(&mut ops, TermOp::ScrollUp(buffer_rows - at - 1));
        push_op(&mut ops, TermOp::MoveTo { column: 0, row: 0 });
    }
    assert(ops_view(ops@) =~= reposition_ops(
        column,
        row,
        buffer_width as nat,
        buffer_rows as nat,
        columns as nat,
    ));
    ops
}

/// The finished text that a chunk commits: where the chunk holds a line
/// break, what stands before the last line break of buffer and chunk.
pub open spec fn next_block(buffer: Seq<char>, chunk: Seq<char>) -> Option<Seq<char>> {
    let t = tabs_expanded(chunk);
    if t.contains('\n') {
        Some(line_head(buffer + t))
    } else {
        None
    }
}

/// The buffer after a chunk.
pub open spec fn next_buffer(buffer: Seq<char>, chunk: Seq<char>) -> Seq<char> {
    let t = tabs_expanded(chunk);
    if t.contains('\n') {
        line_tail(buffer + t)
    } else {
        buffer + t
    }
}

/// The rows that a rendered line occupies. Rendering may turn one line
/// into several: all but the last count one row each, the last as many as
/// its width needs.
pub open spec fn rendered_rows(line: Seq<char>, columns: nat) -> nat {
    if line.contains('\n') {
        lines(line_head(line)).len() + rows_needed(display_width(line_tail(line)), columns)
    } else {
        rows_needed(display_width(line), columns)
    }
}

/// The operations that print a rendered line and leave the cursor at its
/// end.
pub open spec fn rendered_line_ops(line: Seq<char>, columns: u16) -> Seq<TermOpView> {
    if line.contains('\n') {
        block_ops(line_head(line), columns).push(TermOpView::Print(line_tail(line)))
    } else {
        seq![TermOpView::Print(line)]
    }
}

/// The operations that print what was rendered for a chunk: the committed
/// block, where there is one, then the buffer's line, then a flush.
pub open spec fn rendered_ops(block: Option<Seq<char>>, line: Seq<char>, columns: u16) -> Seq<
    TermOpView,
> {
    let committed = match block {
        Some(b) => block_ops(b, columns),
        None => Seq::empty(),
    };
    (committed + rendered_line_ops(line, columns)).push(TermOpView::Flush)
}

/// What the first half of a chunk's application asks for.
#[derive(Clone, PartialEq, Eq, Debug)]
pub struct ChunkPlan {
    /// Operations that erase the buffer's rows.
    pub ops: Vec<TermOp>,
    /// Finished text to render as a block, where the chunk completed any.
    pub block: Option<String>,
    /// The new buffer, to render as a line that may still grow.
    pub buffer: String,
}

/// What a `ChunkPlan` stands for.
pub struct ChunkPlanView {
    pub ops: Seq<TermOpView>,
    pub block: Option<Seq<char>>,
    pub buffer: Seq<char>,
}

impl View for ChunkPlan {
    type V = ChunkPlanView;

    open spec fn view(&self) -> ChunkPlanView {
        ChunkPlanView {
            ops: ops_view(self.ops@),
            block: match self.block {
                Some(b) => Some(b@),
                None => None,
            },
            buffer: self.buffer@,
        }
    }
}

/// The plan for a chunk that arrives in state `s` with the cursor at
/// (`column`, `row`).
pub open spec fn chunk_plan(s: RenderState, column: u16, row: u16, chunk: Seq<char>) -> ChunkPlanView {
    ChunkPlanView {
        ops: reposition_ops(column, row, display_width(s.buffer), s.buffer_rows, s.columns).push(
            TermOpView::ClearFromCursorDown,
        ),
        block: next_block(s.buffer, chunk),
        buffer: next_buffer(s.buffer, chunk),
    }
}

/// The state after a chunk whose new buffer was rendered as `line`.
pub open spec fn chunk_done(s: RenderState, buffer: Seq<char>, line: Seq<char>) -> RenderState {
    RenderState { buffer, buffer_rows: rendered_rows(line, s.columns), columns: s.columns }
}

/// The buffer of a stream and the rows that it occupies on the screen.
#[derive(PartialEq, Eq, Debug)]
pub struct StreamRenderer {
    buffer: String,
    buffer_rows: u16,
    columns: u16,
}

impl View for StreamRenderer {
    type V = RenderState;

    closed spec fn view(&self) -> RenderState {
        RenderState {
            buffer: self.buffer@,
            buffer_rows: self.buffer_rows as nat,
            columns: self.columns as nat,
        }
    }
}

impl Clone for StreamRenderer {
    fn clone(&self) -> (copy: Self)
        ensures
            copy@ == self@,
    {
        proof {
            use_type_invariant(self);
        }
        StreamRenderer {
            buffer: self.buffer.clone(),
            buffer_rows: self.buffer_rows,
            columns: self.columns,
        }
    }
}

impl StreamRenderer {
    /// The screen has a column and the buffer a row.
    #[verifier::type_invariant]
    spec fn valid(self) -> bool {
        self.columns >= 1 && self.buffer_rows >= 1
    }

    /// A renderer for a screen of `columns` columns, with an empty buffer
    /// on one row; `None` for a screen without columns.
    pub fn new(columns: u16) -> (r: Option<Self>)
        ensures
            match r {
                Some(s) => columns > 0 && s@ == initial_state(columns as nat),
                None => columns == 0,
            },
    {
        if columns == 0 {
            None
        } else {
            Some(StreamRenderer { buffer: String::new(), buffer_rows: 1, columns })
        }
    }

    pub fn buffer(&self) -> (s: &str)
        ensures
            s@ == self@.buffer,
    {
        self.buffer.as_str()
    }

    /// The rows that the rendered buffer occupies: at least one.
    pub fn buffer_rows(&self) -> (n: u16)
        ensures
            n == self@.buffer_rows,
            n >= 1,
    {
        proof {
            use_type_invariant(self);
        }
        self.buffer_rows
    }

    /// The width of the screen: at least one column.
    pub fn columns(&self) -> (n: u16)
        ensures
            n == self@.columns,
            n >= 1,
    {
        proof {
            use_type_invariant(self);
        }
        self.columns
    }

    /// The first half of applying a chunk, given the cursor position that
    /// the terminal reports: the operations that erase the buffer's rows,
    /// the text that the chunk completes, and the new buffer. The renderer
    /// itself is not changed.
    pub fn begin_chunk(&self, column: u16, row: u16, chunk: &str) -> (plan: ChunkPlan)
        ensures
            plan@ == chunk_plan(self@, column, row, chunk@),
    {
        proof {
            use_type_invariant(self);
        }
        let text = expand_tabs(chunk);
        let width = text_width(self.buffer.as_str());
        let mut ops = reposition(column, row, width, self.buffer_rows, self.columns);
        push_op(&mut ops, TermOp::ClearFromCursorDown);
        let mut joined = self.buffer.clone();
        joined.append(text.as_str());
        if has_line_break(text.as_str()) {
            let (head, tail) = split_line_tail(joined.as_str());
            ChunkPlan { ops, block: Some(String::from_str(head)), buffer: String::from_str(tail) }
        } else {
            ChunkPlan { ops, block: None, buffer: joined }
        }
    }

    /// The second half of applying a chunk: given the new buffer, the
    /// rendering of the completed block where there is one, and the
    /// rendering of the new buffer, the operations that print them. The
    /// renderer then holds the new buffer and the rows of its rendering.
    /// Where these rows are too many for a row number, nothing is returned
    /// and the renderer stays as it was.
    pub fn finish_chunk(
        &mut self,
        buffer: String,
        rendered_block: Option<&str>,
        rendered_line: &str,
    ) -> (r: Option<Vec<TermOp>>)
        ensures
            match r {
                Some(ops) => {
                    &&& rendered_rows(rendered_line@, old(self)@.columns) <= u16::MAX
                    &&& final(self)@ == chunk_done(old(self)@, buffer@, rendered_line@)
                    &&& ops_view(ops@) == rendered_ops(
                        opt_view(rendered_block),
                        rendered_line@,
                        old(self)@.columns as u16,
                    )
                },
                None => {
                    &&& rendered_rows(rendered_line@, old(self)@.columns) > u16::MAX
                    &&& final(self)@ == old(self)@
                },
            },
    {
        proof {
            use_type_invariant(&*self);
        }
        let columns = self.columns;
        let mut ops: Vec<TermOp> = Vec::new();
        assert(ops_view(ops@) =~= Seq::<TermOpView>::empty());
        match rendered_block {
            Some(block) => {
                let (printed, _) = print_block(block, columns);
                append_ops(&mut ops, printed);
            },
            None => {},
        }
        let ghost committed = ops_view(ops@);
        let rows: Option<u16>;
        proof {
            lemma_rows_needed(display_width(line_tail(rendered_line@)), columns as nat);
            lemma_rows_needed(display_width(rendered_line@), columns as nat);
        }
        if has_line_break(rendered_line) {
            let (head, tail) = split_line_tail(rendered_line);
            let (printed, count) = print_block(head, columns);
            append_ops(&mut ops, printed);
            push_op(&mut ops, TermOp::Print(String::from_str(tail)));
            rows = total_rows(count, need_rows(tail, columns));
        } else {
            push_op(&mut ops, TermOp::Print(String::from_str(rendered_line)));
            rows = need_rows(rendered_line, columns);
        }
        assert(ops_view(ops@) =~= committed + rendered_line_ops(rendered_line@, columns));
        push_op(&mut ops, TermOp::Flush);
        match rows {
            Some(n) => {
                self.buffer = buffer;
                self.buffer_rows = n;
                Some(ops)
            },
            None => None,
        }
    }
}

/// The sum of the lines printed above the last line and the rows of the
/// last line, where both are known and the sum is a row number.
pub open spec fn rows_sum(lines_above: nat, last: Option<u16>) -> Option<u16> {
    match last {
        Some(n) => if lines_above + n <= u16::MAX {
            Some((lines_above + n) as u16)
        } else {
            None
        },
        None => None,
    }
}

/// Computes `rows_sum`.
pub fn total_rows(lines_above: usize, last: Option<u16>) -> (rows: Option<u16>)
    ensures
        rows == rows_sum(lines_above as nat, last),
{
    match last {
        Some(n) => {
            if lines_above <= (u16::MAX - n) as usize {
                Some(lines_above as u16 + n)
            } else {
                None
            }
        },
        None => None,
    }
}

/// All chunks of a stream as one text.
pub open spec fn concat(chunks: Seq<Seq<char>>) -> Seq<char>
    decreases chunks.len(),
{
    if chunks.len() == 0 {
        Seq::empty()
    } else {
        concat(chunks.drop_last()) + chunks.last()
    }
}

/// The buffer after the chunks of a stream, applied in order from the
/// empty buffer.
pub open spec fn stream_buffer(chunks: Seq<Seq<char>>) -> Seq<char>
    decreases chunks.len(),
{
    if chunks.len() == 0 {
        Seq::empty()
    } else {
        next_buffer(stream_buffer(chunks.drop_last()), chunks.last())
    }
}

/// The text that the chunks of a stream have committed: every finished
/// block, in order, each with the line break that ended it.
pub open spec fn stream_committed(chunks: Seq<Seq<char>>) -> Seq<char>
    decreases chunks.len(),
{
    if chunks.len() == 0 {
        Seq::empty()
    } else {
        let before = stream_committed(chunks.drop_last());
        match next_block(stream_buffer(chunks.drop_last()), chunks.last()) {
            Some(block) => before + block + seq!['\n'],
            None => before,
        }
    }
}

/// The renderer's state after the chunks of a stream, where `render_line`
/// is what the markdown engine makes of a buffer.
pub open spec fn stream_state(
    columns: nat,
    chunks: Seq<Seq<char>>,
    render_line: spec_fn(Seq<char>) -> Seq<char>,
) -> RenderState
    decreases chunks.len(),
{
    if chunks.len() == 0 {
        initial_state(columns)
    } else {
        let before = stream_state(columns, chunks.drop_last(), render_line);
        let buffer = next_buffer(before.buffer, chunks.last());
        chunk_done(before, buffer, render_line(buffer))
    }
}

/// The committed text of the whole text `all`: everything up to its last
/// line break, the line break included.
pub open spec fn committed_part(all: Seq<char>) -> Seq<char> {
    if all.contains('\n') {
        line_head(all) + seq!['\n']
    } else {
        Seq::empty()
    }
}

/// A text splits in one way only into a part that is empty or ends in a
/// line break and a part without line break.
pub proof fn lemma_unique_split(committed: Seq<char>, buffer: Seq<char>)
    requires
        committed.len() == 0 || committed.last() == '\n',
        !buffer.contains('\n'),
    ensures
        committed == committed_part(committed + buffer),
        buffer == line_tail(committed + buffer),
{
    let all = committed + buffer;
    if committed.len() == 0 {
        assert(all =~= buffer);
        lemma_head_tail(all);
    } else {
        let head = committed.drop_last();
        assert(committed =~= head + seq!['\n']);
        assert(all =~= head + seq!['\n'] + buffer);
        lemma_split_joined(head, buffer);
        assert(all[head.len() as int] == '\n');
        assert(all.contains('\n'));
    }
}

/// What a stream has committed and what it holds in its buffer make up,
/// in this order, the text of its chunks with the tabs expanded. The
/// buffer holds no line break, and the committed text ends in one.
pub proof fn lemma_stream_text(chunks: Seq<Seq<char>>)
    ensures
        stream_committed(chunks) + stream_buffer(chunks) == tabs_expanded(concat(chunks)),
        !stream_buffer(chunks).contains('\n'),
        stream_committed(chunks).len() == 0 || stream_committed(chunks).last() == '\n',
    decreases chunks.len(),
{
    if chunks.len() == 0 {
        assert(stream_committed(chunks) + stream_buffer(chunks) =~= Seq::<char>::empty());
    } else {
        let init = chunks.drop_last();
        lemma_stream_text(init);
        let c = stream_committed(init);
        let b = stream_buffer(init);
        let t = tabs_expanded(chunks.last());
        lemma_tabs_expanded_add(concat(init), chunks.last());
        assert(tabs_expanded(concat(chunks)) =~= c + (b + t));
        if t.contains('\n') {
            let k = choose|k: int| 0 <= k < t.len() && t[k] == '\n';
            assert((b + t)[b.len() + k] == '\n');
            lemma_head_tail(b + t);
            assert(stream_committed(chunks) + stream_buffer(chunks) =~= c + (b + t));
        } else {
            if (b + t).contains('\n') {
                let k = choose|k: int| 0 <= k < (b + t).len() && (b + t)[k] == '\n';
                if k < b.len() {
                    assert(b[k] == '\n');
                } else {
                    assert(t[k - b.len()] == '\n');
                }
            }
            assert(stream_committed(chunks) + stream_buffer(chunks) =~= c + (b + t));
        }
    }
}

/// The buffer of `stream_state` is `stream_buffer`, whatever the width of
/// the screen and the markdown engine.
pub proof fn lemma_stream_state_buffer(
    columns: nat,
    chunks: Seq<Seq<char>>,
    render_line: spec_fn(Seq<char>) -> Seq<char>,
)
    ensures
        stream_state(columns, chunks, render_line).buffer == stream_buffer(chunks),
        stream_state(columns, chunks, render_line).columns == columns,
    decreases chunks.len(),
{
    if chunks.len() > 0 {
        lemma_stream_state_buffer(columns, chunks.drop_last(), render_line);
    }
}

/// When a stream of at least one chunk is complete, the buffer is what
/// follows the last line break of the whole text, and `buffer_rows` is the
/// number of rows that the rendering of this residual line occupies.
pub proof fn lemma_rows_of_residual(
    columns: nat,
    chunks: Seq<Seq<char>>,
    render_line: spec_fn(Seq<char>) -> Seq<char>,
)
    requires
        chunks.len() > 0,
    ensures
        stream_state(columns, chunks, render_line).buffer == line_tail(
            tabs_expanded(concat(chunks)),
        ),
        stream_state(columns, chunks, render_line).buffer_rows == rendered_rows(
            render_line(line_tail(tabs_expanded(concat(chunks)))),
            columns,
        ),
{
    lemma_stream_state_buffer(columns, chunks, render_line);
    lemma_stream_state_buffer(columns, chunks.drop_last(), render_line);
    lemma_stream_text(chunks);
    lemma_unique_split(stream_committed(chunks), stream_buffer(chunks));
}

/// However a text is split into chunks, the stream ends as if the whole
/// text had come as a single chunk: with the same committed text, the same
/// buffer and the same number of rows.
pub proof fn lemma_split_independent(
    columns: nat,
    chunks: Seq<Seq<char>>,
    render_line: spec_fn(Seq<char>) -> Seq<char>,
)
    requires
        chunks.len() > 0,
    ensures
        stream_committed(chunks) == stream_committed(seq![concat(chunks)]),
        stream_state(columns, chunks, render_line) == stream_state(
            columns,
            seq![concat(chunks)],
            render_line,
        ),
{
    let whole = seq![concat(chunks)];
    assert(whole.drop_last() =~= Seq::<Seq<char>>::empty());
    assert(concat(whole) =~= concat(chunks)) by {
        assert(concat(whole.drop_last()) =~= Seq::<char>::empty());
    }
    lemma_rows_of_residual(columns, chunks, render_line);
    lemma_rows_of_residual(columns, whole, render_line);
    lemma_stream_state_buffer(columns, chunks, render_line);
    lemma_stream_state_buffer(columns, whole, render_line);
    lemma_stream_text(chunks);
    lemma_stream_text(whole);
    lemma_unique_split(stream_committed(chunks), stream_buffer(chunks));
    lemma_unique_split(stream_committed(whole), stream_buffer(whole));
}

/// The lines that a stream has printed for its finished blocks, where
/// `render` is what the markdown engine makes of a block.
pub open spec fn stream_printed(
    chunks: Seq<Seq<char>>,
    render: spec_fn(Seq<char>) -> Seq<char>,
) -> Seq<Seq<char>>
    decreases chunks.len(),
{
    if chunks.len() == 0 {
        Seq::empty()
    } else {
        let before = stream_printed(chunks.drop_last(), render);
        match next_block(stream_buffer(chunks.drop_last()), chunks.last()) {
            Some(block) => before + lines(render(block)),
            None => before,
        }
    }
}

/// A markdown engine that renders line by line: what it makes of two
/// texts joined by a line break is what it makes of each, joined by a line
/// break.
pub open spec fn renders_line_by_line(render: spec_fn(Seq<char>) -> Seq<char>) -> bool {
    forall|a: Seq<char>, b: Seq<char>| #[trigger]
        render(a + seq!['\n'] + b) == render(a) + seq!['\n'] + render(b)
}

/// With an engine that renders line by line, the lines printed for the
/// finished blocks of a stream are the lines of the rendering of all that
/// was committed, taken as one block.
pub proof fn lemma_printed_lines(chunks: Seq<Seq<char>>, render: spec_fn(Seq<char>) -> Seq<char>)
    requires
        renders_line_by_line(render),
    ensures
        stream_printed(chunks, render) == if stream_committed(chunks).len() == 0 {
            Seq::<Seq<char>>::empty()
        } else {
            lines(render(stream_committed(chunks).drop_last()))
        },
    decreases chunks.len(),
{
    if chunks.len() > 0 {
        let init = chunks.drop_last();
        lemma_printed_lines(init, render);
        lemma_stream_text(init);
        let c = stream_committed(init);
        match next_block(stream_buffer(init), chunks.last()) {
            Some(block) => {
                let all = c + block + seq!['\n'];
                assert(all.drop_last() =~= c + block);
                if c.len() == 0 {
                    assert(c + block =~= block);
                    assert(Seq::<Seq<char>>::empty() + lines(render(block)) =~= lines(
                        render(block),
                    ));
                } else {
                    let head = c.drop_last();
                    assert(c =~= head + seq!['\n']);
                    assert(c + block =~= head + seq!['\n'] + block);
                    assert(render(head + seq!['\n'] + block) == render(head) + seq!['\n']
                        + render(block));
                    lemma_lines_joined(render(head), render(block));
                }
            },
            None => {},
        }
    }
}

/// With an engine that renders line by line, the lines printed for the
/// finished blocks do not depend on how the text was split into chunks.
pub proof fn lemma_split_independent_print(
    chunks: Seq<Seq<char>>,
    render: spec_fn(Seq<char>) -> Seq<char>,
)
    requires
        renders_line_by_line(render),
        chunks.len() > 0,
    ensures
        stream_printed(chunks, render) == stream_printed(seq![concat(chunks)], render),
{
    lemma_split_independent(1, chunks, |s: Seq<char>| s);
    lemma_printed_lines(chunks, render);
    lemma_printed_lines(seq![concat(chunks)], render);
}

} // verus!
