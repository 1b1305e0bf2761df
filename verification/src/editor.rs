//! The editing buffer: an ordered sequence of text lines with a cursor kept
//! in display-width units, and the editor that wraps it with statement
//! termination.

use vstd::prelude::*;
use vstd::string::StringExecFns;
use vstd::string::StrSliceExecFns;

verus! {

/// Columns the cursor advances past one character: a tab occupies a fixed
/// four-column stop, a line break adds no width of its own, and every other
/// character occupies one column.
pub open spec fn char_advance(c: char) -> nat {
    if c == '\t' {
        4
    } else if c == '\n' {
        0
    } else {
        1
    }
}

/// Display width of a row of text: the sum of the advances of its characters.
pub open spec fn line_width(s: Seq<char>) -> nat
    decreases s.len(),
{
    if s.len() == 0 {
        0
    } else {
        line_width(s.drop_last()) + char_advance(s.last())
    }
}

pub open spec fn no_newline(s: Seq<char>) -> bool {
    forall|i: int| 0 <= i < s.len() ==> s[i] != '\n'
}

/// A row that a line break has closed: it ends with the break and holds no
/// other break.
pub open spec fn closed_line(s: Seq<char>) -> bool {
    s.len() >= 1 && s.last() == '\n' && no_newline(s.drop_last())
}

/// Mathematical shape of the editing buffer: the rows' text, the cursor row,
/// and the cursor column in display-width units.
#[verifier::ext_equal]
pub ghost struct BufferModel {
    pub lines: Seq<Seq<char>>,
    pub row: nat,
    pub col: nat,
}

pub open spec fn empty_buffer() -> BufferModel {
    BufferModel { lines: Seq::empty(), row: 0, col: 0 }
}

/// The full statement text: all rows concatenated in order, line breaks and
/// tabs kept exactly as stored.
pub open spec fn concat_lines(lines: Seq<Seq<char>>) -> Seq<char>
    decreases lines.len(),
{
    if lines.len() == 0 {
        Seq::empty()
    } else {
        concat_lines(lines.drop_last()) + lines.last()
    }
}

pub open spec fn buffer_text(m: BufferModel) -> Seq<char> {
    concat_lines(m.lines)
}

/// The buffer's invariant: the cursor sits at the end of the last row, every
/// earlier row is closed by exactly one line break, the last row holds no
/// break, and every row's width fits the terminal coordinate type.
pub open spec fn buffer_wf(m: BufferModel) -> bool {
    &&& m.lines.len() == 0 ==> m.row == 0 && m.col == 0
    &&& m.lines.len() > 0 ==> m.row == m.lines.len() - 1 && m.col == line_width(m.lines.last())
    &&& forall|i: int| 0 <= i < m.lines.len() - 1 ==> closed_line(#[trigger] m.lines[i])
    &&& m.lines.len() > 0 ==> no_newline(m.lines.last())
    &&& forall|i: int| 0 <= i < m.lines.len() ==> line_width(#[trigger] m.lines[i]) <= u16::MAX
}

/// Appending a character: an empty buffer first materializes its single empty
/// row; a line break closes the current row and opens a new empty one below
/// it; any other character extends the current row and advances the column.
pub open spec fn model_append(m: BufferModel, c: char) -> BufferModel {
    let lines = if m.lines.len() == 0 {
        seq![Seq::<char>::empty()]
    } else {
        m.lines
    };
    let r = lines.len() - 1;
    if c == '\n' {
        BufferModel {
            lines: lines.update(r, lines[r].push('\n')).push(Seq::empty()),
            row: lines.len() as nat,
            col: 0,
        }
    } else {
        BufferModel {
            lines: lines.update(r, lines[r].push(c)),
            row: (lines.len() - 1) as nat,
            col: m.col + char_advance(c),
        }
    }
}

/// Backspace: a no-op on an empty buffer and at the very first row and
/// column; at column zero of a later row it removes the empty row and the
/// separator that closed the row above, placing the cursor at that row's
/// width; elsewhere it deletes the character before the cursor and retreats
/// by that character's advance.
pub open spec fn model_backspace(m: BufferModel) -> BufferModel {
    if m.lines.len() == 0 {
        m
    } else {
        let last = m.lines.last();
        if last.len() == 0 {
            if m.lines.len() == 1 {
                m
            } else {
                let shorter = m.lines.drop_last();
                let merged = shorter.last().drop_last();
                BufferModel {
                    lines: shorter.update(shorter.len() - 1, merged),
                    row: (shorter.len() - 1) as nat,
                    col: line_width(merged),
                }
            }
        } else {
            BufferModel {
                lines: m.lines.update(m.lines.len() - 1, last.drop_last()),
                row: m.row,
                col: (m.col - char_advance(last.last())) as nat,
            }
        }
    }
}

/// Relies on String::push: appends the given character to the end of the
/// string.
#[verifier::external_body]
fn push_char(s: &mut String, c: char)
    ensures
        final(s)@ == old(s)@.push(c),
{
    s.push(c);
}

/// Relies on String::pop: removes the last character from the string and
/// returns it, or returns None when the string is empty.
#[verifier::external_body]
fn pop_char(s: &mut String) -> (r: Option<char>)
    ensures
        old(s)@.len() == 0 ==> r is None && *final(s) == *old(s),
        old(s)@.len() > 0 ==> r == Some(old(s)@.last()) && final(s)@ == old(s)@.drop_last(),
{
    s.pop()
}

/// Appending preserves the buffer invariant, provided the advanced column
/// and, for a line break, the new row index still fit the coordinate type.
pub proof fn lemma_append_wf(m: BufferModel, c: char)
    requires
        buffer_wf(m),
        c != '\n' ==> m.col + char_advance(c) <= u16::MAX,
        c == '\n' ==> m.lines.len() <= u16::MAX,
    ensures
        buffer_wf(model_append(m, c)),
{
    let lines = if m.lines.len() == 0 {
        seq![Seq::<char>::empty()]
    } else {
        m.lines
    };
    let r = lines.len() - 1;
    let grown = lines[r].push(if c == '\n' { '\n' } else { c });
    assert(grown.drop_last() =~= lines[r]);
    let a = model_append(m, c);
    if c == '\n' {
        assert(closed_line(grown));
        assert forall|i: int| 0 <= i < a.lines.len() - 1 implies closed_line(#[trigger] a.lines[i]) by {
            if i < r {
                assert(a.lines[i] == m.lines[i]);
            }
        }
        assert forall|i: int| 0 <= i < a.lines.len() implies line_width(#[trigger] a.lines[i]) <= u16::MAX by {
            if i < r {
                assert(a.lines[i] == m.lines[i]);
            } else if i == r {
                assert(line_width(grown) == line_width(lines[r]));
            }
        }
    } else {
        assert(line_width(grown) == line_width(lines[r]) + char_advance(c));
        assert forall|i: int| 0 <= i < a.lines.len() - 1 implies closed_line(#[trigger] a.lines[i]) by {
            assert(a.lines[i] == m.lines[i]);
        }
        assert forall|i: int| 0 <= i < a.lines.len() implies line_width(#[trigger] a.lines[i]) <= u16::MAX by {
            if i < r {
                assert(a.lines[i] == m.lines[i]);
            }
        }
    }
}

/// Appending one character extends the buffer's flattened text by exactly
/// that character, whatever the character.
pub proof fn lemma_append_text(m: BufferModel, c: char)
    requires
        buffer_wf(m),
    ensures
        buffer_text(model_append(m, c)) == buffer_text(m).push(c),
{
    let lines = if m.lines.len() == 0 {
        seq![Seq::<char>::empty()]
    } else {
        m.lines
    };
    let r = lines.len() - 1;
    if m.lines.len() == 0 {
        assert(lines.drop_last() =~= Seq::<Seq<char>>::empty());
        assert(concat_lines(Seq::<Seq<char>>::empty()) == Seq::<char>::empty());
        assert(concat_lines(lines) =~= Seq::<char>::empty());
        assert(buffer_text(m) =~= Seq::<char>::empty());
    }
    let grown = lines.update(r, lines[r].push(if c == '\n' { '\n' } else { c }));
    assert(grown =~= lines.drop_last().push(lines[r].push(if c == '\n' { '\n' } else { c })));
    assert(grown.drop_last() =~= lines.drop_last());
    assert(concat_lines(grown) == concat_lines(lines.drop_last()) + lines[r].push(
        if c == '\n' { '\n' } else { c },
    ));
    assert(concat_lines(grown) =~= concat_lines(lines).push(if c == '\n' { '\n' } else { c }));
    if c == '\n' {
        let a = model_append(m, c);
        assert(a.lines == grown.push(Seq::<char>::empty()));
        assert(a.lines.drop_last() =~= grown);
        assert(concat_lines(a.lines) =~= concat_lines(grown));
    }
    assert(buffer_text(model_append(m, c)) =~= buffer_text(m).push(c));
}

/// Backspace preserves the buffer invariant.
pub proof fn lemma_backspace_wf(m: BufferModel)
    requires
        buffer_wf(m),
    ensures
        buffer_wf(model_backspace(m)),
{
    let b = model_backspace(m);
    if m.lines.len() == 0 {
    } else {
        let last = m.lines.last();
        if last.len() == 0 {
            if m.lines.len() == 1 {
            } else {
                let shorter = m.lines.drop_last();
                let closed = shorter.last();
                assert(closed == m.lines[m.lines.len() - 2]);
                assert(closed_line(closed));
                let merged = closed.drop_last();
                assert(line_width(closed) == line_width(merged) + char_advance(closed.last()));
                assert forall|i: int| 0 <= i < b.lines.len() - 1 implies closed_line(
                    #[trigger] b.lines[i],
                ) by {
                    assert(b.lines[i] == m.lines[i]);
                }
                assert forall|i: int| 0 <= i < b.lines.len() implies line_width(
                    #[trigger] b.lines[i],
                ) <= u16::MAX by {
                    if i < b.lines.len() - 1 {
                        assert(b.lines[i] == m.lines[i]);
                    } else {
                        assert(line_width(closed) <= u16::MAX);
                    }
                }
            }
        } else {
            let trimmed = last.drop_last();
            assert(line_width(last) == line_width(trimmed) + char_advance(last.last()));
            assert(no_newline(trimmed)) by {
                assert(forall|i: int| 0 <= i < trimmed.len() ==> trimmed[i] == last[i]);
            }
            assert forall|i: int| 0 <= i < b.lines.len() - 1 implies closed_line(
                #[trigger] b.lines[i],
            ) by {
                assert(b.lines[i] == m.lines[i]);
            }
            assert forall|i: int| 0 <= i < b.lines.len() implies line_width(
                #[trigger] b.lines[i],
            ) <= u16::MAX by {
                if i < b.lines.len() - 1 {
                    assert(b.lines[i] == m.lines[i]);
                }
            }
        }
    }
}

/// A prefix of a row is never wider than the whole row.
pub proof fn lemma_line_width_prefix(s: Seq<char>, i: int)
    requires
        0 <= i <= s.len(),
    ensures
        line_width(s.take(i)) <= line_width(s),
    decreases s.len() - i,
{
    if i < s.len() {
        assert(s.take(i + 1).drop_last() =~= s.take(i));
        assert(line_width(s.take(i + 1)) == line_width(s.take(i)) + char_advance(s[i]));
        lemma_line_width_prefix(s, i + 1);
    } else {
        assert(s.take(i) =~= s);
    }
}

/// The number of terminal columns one character occupies.
pub fn advance_of(c: char) -> (a: u16)
    ensures
        a == char_advance(c),
{
    if c == '\t' {
        4
    } else if c == '\n' {
        0
    } else {
        1
    }
}

/// Display width of a row of text, in terminal columns.
pub fn measure_width(s: &str) -> (w: u16)
    requires
        line_width(s@) <= u16::MAX,
    ensures
        w == line_width(s@),
{
    let n = s.unicode_len();
    let mut w: u16 = 0;
    let mut i: usize = 0;
    while i < n
        invariant
            0 <= i <= n,
            n == s@.len(),
            w == line_width(s@.take(i as int)),
            line_width(s@) <= u16::MAX,
        decreases n - i,
    {
        let c = s.get_char(i);
        proof {
            assert(s@.take(i as int + 1).drop_last() =~= s@.take(i as int));
            assert(line_width(s@.take(i as int + 1)) == line_width(s@.take(i as int))
                + char_advance(s@[i as int]));
            lemma_line_width_prefix(s@, i as int + 1);
        }
        w = w + advance_of(c);
        i = i + 1;
    }
    proof {
        assert(s@.take(n as int) =~= s@);
    }
    w
}

/// A buffer whose first row has been closed by a line break carries that
/// break in its flattened text.
proof fn lemma_first_row_break_in_text(s: Seq<Seq<char>>)
    requires
        s.len() >= 1,
        closed_line(s[0]),
    ensures
        !no_newline(concat_lines(s)),
    decreases s.len(),
{
    if s.len() == 1 {
        assert(s.drop_last() =~= Seq::<Seq<char>>::empty());
        assert(concat_lines(Seq::<Seq<char>>::empty()) == Seq::<char>::empty());
        assert(concat_lines(s) =~= s[0]);
        assert(concat_lines(s)[s[0].len() - 1] == '\n');
    } else {
        lemma_first_row_break_in_text(s.drop_last());
        let t = concat_lines(s.drop_last());
        let k = choose|k: int| 0 <= k < t.len() && t[k] == '\n';
        assert(concat_lines(s)[k] == '\n');
    }
}

/// After any sequence of insertions without a line break, the cursor column
/// equals the display width of the whole text: the sum of the appended
/// characters' advances, one column each and four for a tab.
pub proof fn lemma_unbroken_buffer_column(m: BufferModel)
    requires
        buffer_wf(m),
        no_newline(buffer_text(m)),
    ensures
        m.col == line_width(buffer_text(m)),
{
    if m.lines.len() == 0 {
        assert(concat_lines(m.lines) == Seq::<char>::empty());
        assert(line_width(buffer_text(m)) == 0);
    } else if m.lines.len() == 1 {
        assert(m.lines.drop_last() =~= Seq::<Seq<char>>::empty());
        assert(concat_lines(Seq::<Seq<char>>::empty()) == Seq::<char>::empty());
        assert(buffer_text(m) =~= m.lines.last());
    } else {
        assert(closed_line(m.lines[0]));
        lemma_first_row_break_in_text(m.lines);
        assert(false);
    }
}

/// Inserting a line break and backspacing are inverses: on any non-empty
/// well-formed buffer, the backspace that follows a break restores the rows,
/// the row count, and the cursor exactly. (On an empty buffer the pair
/// leaves the single materialized empty row behind: the text and the cursor
/// return, the row count does not.)
pub proof fn lemma_newline_backspace_inverse(m: BufferModel)
    requires
        buffer_wf(m),
        m.lines.len() > 0,
    ensures
        model_backspace(model_append(m, '\n')) == m,
{
    let a = model_append(m, '\n');
    let n = m.lines.len() as int;
    assert(a.lines.last() =~= Seq::<char>::empty());
    let shorter = a.lines.drop_last();
    assert(shorter =~= m.lines.update(n - 1, m.lines[n - 1].push('\n')));
    assert(shorter.last() == m.lines[n - 1].push('\n'));
    let merged = shorter.last().drop_last();
    assert(merged =~= m.lines[n - 1]);
    assert(shorter.update(shorter.len() - 1, merged) =~= m.lines);
    assert(m.lines[n - 1] == m.lines.last());
    assert(model_backspace(a) =~~= m);
}

/// Clearing always yields a buffer whose combined text is the empty string,
/// whatever the prior state.
pub proof fn lemma_clear_empty_text()
    ensures
        buffer_text(empty_buffer()) == Seq::<char>::empty(),
{
}

/// Single line of text in the editor.
pub struct Line {
    pub text: String,
}

impl View for Line {
    type V = Seq<char>;

    open spec fn view(&self) -> Seq<char> {
        self.text@
    }
}

impl Default for Line {
    fn default() -> (r: Line)
        ensures
            r@ == Seq::<char>::empty(),
    {
        Line { text: String::new() }
    }
}

pub open spec fn line_views(s: Seq<Line>) -> Seq<Seq<char>> {
    s.map_values(|l: Line| l@)
}

pub proof fn lemma_line_views_push(s: Seq<Line>, l: Line)
    ensures
        line_views(s.push(l)) =~= line_views(s).push(l@),
{
}

pub proof fn lemma_line_views_drop_last(s: Seq<Line>)
    requires
        s.len() > 0,
    ensures
        line_views(s.drop_last()) =~= line_views(s).drop_last(),
        line_views(s).last() == s.last()@,
{
}

/// All lines in the editor, and the cursor over them.
pub struct Input {
    pub lines: Vec<Line>,
    /// Current line in the editor.
    pub cursor_row: u16,
    /// Current column in the editor, in display-width units.
    pub cursor_column: u16,
}

impl View for Input {
    type V = BufferModel;

    open spec fn view(&self) -> BufferModel {
        BufferModel {
            lines: line_views(self.lines@),
            row: self.cursor_row as nat,
            col: self.cursor_column as nat,
        }
    }
}

impl Input {
    pub open spec fn wf(&self) -> bool {
        buffer_wf(self@)
    }

    /// Discards all rows and resets the cursor, whatever the prior state.
    pub fn clear(&mut self)
        ensures
            final(self)@ == empty_buffer(),
            final(self).wf(),
    {
        self.lines = Vec::new();
        self.cursor_row = 0;
        self.cursor_column = 0;
        proof {
            assert(self@.lines =~= empty_buffer().lines);
            assert(self@ =~~= empty_buffer());
        }
    }

    /// Inserts one character at the cursor. A line break closes the current
    /// row and opens a new empty one below it; a tab is stored as a single
    /// literal character while the column advances by its four-column stop;
    /// any other character advances the column by one. Always succeeds on
    /// inputs whose advanced cursor still fits the terminal coordinate type.
    pub fn append_char(&mut self, c: char)
        requires
            old(self).wf(),
            c != '\n' ==> old(self)@.col + char_advance(c) <= u16::MAX,
            c == '\n' ==> old(self)@.lines.len() <= u16::MAX,
        ensures
            final(self)@ == model_append(old(self)@, c),
            final(self).wf(),
            buffer_text(final(self)@) == buffer_text(old(self)@).push(c),
    {
        proof {
            lemma_append_wf(old(self)@, c);
            lemma_append_text(old(self)@, c);
        }
        if self.lines.len() == 0 {
            self.lines.push(Line::default());
            proof {
                lemma_line_views_push(old(self).lines@, self.lines@.last());
                assert(self@.lines =~= old(self)@.lines.push(Seq::<char>::empty()));
                assert(self@.lines =~= seq![Seq::<char>::empty()]);
            }
        }
        let ghost pre_vec = self.lines@;
        let ghost mat = self@.lines;
        let ghost r = mat.len() - 1;
        let mut line = self.lines.pop().unwrap();
        proof {
            lemma_line_views_drop_last(pre_vec);
        }
        if c == '\n' {
            push_char(&mut line.text, '\n');
            self.lines.push(line);
            self.lines.push(Line::default());
            self.cursor_row = self.cursor_row + 1;
            self.cursor_column = 0;
            proof {
                let popped = mat.drop_last();
                assert(line_views(self.lines@.drop_last().drop_last()) =~= popped);
                lemma_line_views_push(self.lines@.drop_last().drop_last(), self.lines@.drop_last().last());
                lemma_line_views_push(self.lines@.drop_last(), self.lines@.last());
                assert(self@.lines =~= popped.push(mat[r].push('\n')).push(Seq::<char>::empty()));
                assert(mat.update(r, mat[r].push('\n')) =~= popped.push(mat[r].push('\n')));
                assert(self@ =~~= model_append(old(self)@, c));
            }
        } else if c == '\t' {
            push_char(&mut line.text, '\t');
            self.lines.push(line);
            self.cursor_column = self.cursor_column + 4;
            proof {
                let popped = mat.drop_last();
                assert(line_views(self.lines@.drop_last()) =~= popped);
                lemma_line_views_push(self.lines@.drop_last(), self.lines@.last());
                assert(self@.lines =~= popped.push(mat[r].push('\t')));
                assert(mat.update(r, mat[r].push('\t')) =~= popped.push(mat[r].push('\t')));
                assert(self@ =~~= model_append(old(self)@, c));
            }
        } else {
            push_char(&mut line.text, c);
            self.lines.push(line);
            self.cursor_column = self.cursor_column + 1;
            proof {
                let popped = mat.drop_last();
                assert(line_views(self.lines@.drop_last()) =~= popped);
                lemma_line_views_push(self.lines@.drop_last(), self.lines@.last());
                assert(self@.lines =~= popped.push(mat[r].push(c)));
                assert(mat.update(r, mat[r].push(c)) =~= popped.push(mat[r].push(c)));
                assert(self@ =~~= model_append(old(self)@, c));
            }
        }
    }

    /// Convenience call that inserts a literal tab at the cursor.
    pub fn tab(&mut self)
        requires
            old(self).wf(),
            old(self)@.col + 4 <= u16::MAX,
        ensures
            final(self)@ == model_append(old(self)@, '\t'),
            final(self).wf(),
            buffer_text(final(self)@) == buffer_text(old(self)@).push('\t'),
    {
        self.append_char('\t');
    }

    /// Removes and returns the last character of the current row, or None
    /// when the buffer or the current row is empty. The cursor is left
    /// untouched: crossing row boundaries is backspace's business.
    pub fn pop(&mut self) -> (r: Option<char>)
        requires
            old(self).wf(),
        ensures
            old(self)@.lines.len() == 0 ==> r is None && final(self)@ == old(self)@,
            old(self)@.lines.len() > 0 && old(self)@.lines.last().len() == 0 ==> r is None
                && final(self)@ == old(self)@,
            old(self)@.lines.len() > 0 && old(self)@.lines.last().len() > 0 ==> {
                &&& r == Some(old(self)@.lines.last().last())
                &&& final(self)@.lines == old(self)@.lines.update(
                    old(self)@.lines.len() - 1,
                    old(self)@.lines.last().drop_last(),
                )
                &&& final(self)@.row == old(self)@.row
                &&& final(self)@.col == old(self)@.col
            },
    {
        if self.lines.len() == 0 {
            return None;
        }
        let ghost pre_vec = self.lines@;
        let mut line = self.lines.pop().unwrap();
        let r = pop_char(&mut line.text);
        self.lines.push(line);
        proof {
            lemma_line_views_drop_last(pre_vec);
            lemma_line_views_push(pre_vec.drop_last(), self.lines@.last());
            if old(self)@.lines.last().len() == 0 {
                assert(self@.lines =~= old(self)@.lines);
                assert(self@ =~~= old(self)@);
            } else {
                assert(old(self)@.lines.update(
                    old(self)@.lines.len() - 1,
                    old(self)@.lines.last().drop_last(),
                ) =~= old(self)@.lines.drop_last().push(old(self)@.lines.last().drop_last()));
                assert(self@.lines =~= old(self)@.lines.update(
                    old(self)@.lines.len() - 1,
                    old(self)@.lines.last().drop_last(),
                ));
            }
        }
        r
    }

    /// Moves the cursor up one row (clamped at the first row) and places it
    /// at the end of that row, at the row's display width. A no-op on an
    /// empty buffer.
    pub fn up_row(&mut self)
        requires
            old(self).wf(),
        ensures
            old(self)@.lines.len() == 0 ==> final(self)@ == old(self)@,
            old(self)@.lines.len() > 0 ==> {
                &&& final(self)@.lines == old(self)@.lines
                &&& old(self)@.row > 0 ==> final(self)@.row + 1 == old(self)@.row
                &&& old(self)@.row == 0 ==> final(self)@.row == 0
                &&& final(self)@.col == line_width(old(self)@.lines[final(self)@.row as int])
            },
    {
        if self.lines.len() == 0 {
            return ;
        }
        if self.cursor_row > 0 {
            self.cursor_row = self.cursor_row - 1;
        }
        let idx = self.cursor_row as usize;
        let target: &Line = &self.lines[idx];
        proof {
            assert(self@.lines[idx as int] == target@);
            assert(line_width(self@.lines[idx as int]) <= u16::MAX);
        }
        let w = measure_width(target.text.as_str());
        self.cursor_column = w;
    }

    /// Deletes backwards from the cursor. At column zero of a later row it
    /// merges with the row above: the empty row and the separator that
    /// closed the previous row are removed and the cursor lands at that
    /// row's display width. Elsewhere it deletes the character before the
    /// cursor and retreats by that character's advance. A no-op on an empty
    /// buffer and at the very first row and column.
    pub fn backspace(&mut self)
        requires
            old(self).wf(),
        ensures
            final(self)@ == model_backspace(old(self)@),
            final(self).wf(),
    {
        proof {
            lemma_backspace_wf(old(self)@);
        }
        if self.lines.len() == 0 {
            return ;
        }
        let ghost pre_vec = self.lines@;
        let mut line = self.lines.pop().unwrap();
        proof {
            lemma_line_views_drop_last(pre_vec);
        }
        if line.text.as_str().is_empty() {
            if self.lines.len() == 0 {
                self.lines.push(line);
                proof {
                    lemma_line_views_push(pre_vec.drop_last(), line);
                    assert(self@.lines =~= old(self)@.lines);
                    assert(self@ =~~= old(self)@);
                }
            } else {
                let ghost mid_vec = pre_vec.drop_last();
                let mut prev = self.lines.pop().unwrap();
                proof {
                    lemma_line_views_drop_last(mid_vec);
                    assert(closed_line(old(self)@.lines[old(self)@.lines.len() - 2]));
                    assert(prev@ == old(self)@.lines.drop_last().last());
                }
                let _separator = pop_char(&mut prev.text);
                proof {
                    let closed = old(self)@.lines.drop_last().last();
                    assert(line_width(closed) == line_width(closed.drop_last())
                        + char_advance(closed.last()));
                    assert(line_width(closed) <= u16::MAX);
                }
                let w = measure_width(prev.text.as_str());
                self.cursor_row = self.cursor_row - 1;
                self.cursor_column = w;
                self.lines.push(prev);
                proof {
                    lemma_line_views_push(mid_vec.drop_last(), self.lines@.last());
                    let shorter = old(self)@.lines.drop_last();
                    let merged = shorter.last().drop_last();
                    assert(shorter.update(shorter.len() - 1, merged) =~= shorter.drop_last().push(
                        merged,
                    ));
                    assert(self@.lines =~= shorter.update(shorter.len() - 1, merged));
                    assert(self@ =~~= model_backspace(old(self)@));
                }
            }
        } else {
            proof {
                let last = old(self)@.lines.last();
                assert(line_width(last) == line_width(last.drop_last()) + char_advance(
                    last.last(),
                ));
            }
            let popped = pop_char(&mut line.text);
            let a = match popped {
                Option::Some(ch) => advance_of(ch),
                Option::None => 0,
            };
            self.cursor_column = self.cursor_column - a;
            self.lines.push(line);
            proof {
                lemma_line_views_push(pre_vec.drop_last(), self.lines@.last());
                let last = old(self)@.lines.last();
                assert(old(self)@.lines.update(old(self)@.lines.len() - 1, last.drop_last())
                    =~= old(self)@.lines.drop_last().push(last.drop_last()));
                assert(self@.lines =~= old(self)@.lines.update(
                    old(self)@.lines.len() - 1,
                    last.drop_last(),
                ));
                assert(self@ =~~= model_backspace(old(self)@));
            }
        }
    }

    /// The full statement text: all rows concatenated in order, line breaks
    /// and tabs preserved exactly as stored. Side-effect free and safe to
    /// call at any time; an empty buffer yields the empty string.
    pub fn combine_lines(&self) -> (r: String)
        ensures
            r@ == buffer_text(self@),
    {
        let mut out = String::new();
        let mut i: usize = 0;
        while i < self.lines.len()
            invariant
                0 <= i <= self.lines@.len(),
                out@ == concat_lines(self@.lines.take(i as int)),
            decreases self.lines@.len() - i,
        {
            let line: &Line = &self.lines[i];
            out.append(line.text.as_str());
            proof {
                let pre = self@.lines.take(i as int);
                let ext = self@.lines.take(i as int + 1);
                assert(ext.drop_last() =~= pre);
                assert(ext.last() == self@.lines[i as int]);
            }
            i = i + 1;
        }
        proof {
            assert(self@.lines.take(self.lines@.len() as int) =~= self@.lines);
        }
        out
    }
}

impl Default for Input {
    fn default() -> (r: Input)
        ensures
            r@ == empty_buffer(),
            r.wf(),
    {
        let r = Input { lines: Vec::new(), cursor_row: 0, cursor_column: 0 };
        proof {
            assert(r@.lines =~= empty_buffer().lines);
            assert(r@ =~~= empty_buffer());
        }
        r
    }
}

/// The editor: the input buffer plus statement-termination detection.
pub struct Editor {
    /// Current value of the input box.
    pub input: Input,
    /// Whether a literal semicolon has terminated the statement.
    pub sql_terminated: bool,
}

impl Editor {
    pub open spec fn wf(&self) -> bool {
        self.input.wf()
    }

    /// Inserts a character at the cursor; a semicolon additionally marks
    /// the statement as terminated.
    pub fn append_char(&mut self, c: char)
        requires
            old(self).wf(),
            c != '\n' ==> old(self).input@.col + char_advance(c) <= u16::MAX,
            c == '\n' ==> old(self).input@.lines.len() <= u16::MAX,
        ensures
            final(self).wf(),
            final(self).input@ == model_append(old(self).input@, c),
            final(self).sql_terminated == (old(self).sql_terminated || c == ';'),
    {
        self.input.append_char(c);
        if c == ';' {
            self.sql_terminated = true;
        }
    }

    /// Enter: while the statement is unterminated, continues it on a new
    /// row and returns None. Once a semicolon has terminated it, returns
    /// the flattened statement text, clears the buffer, and resets the
    /// termination flag; the caller submits the returned statement.
    pub fn on_enter(&mut self) -> (r: Option<String>)
        requires
            old(self).wf(),
            !old(self).sql_terminated ==> old(self).input@.lines.len() <= u16::MAX,
        ensures
            final(self).wf(),
            !final(self).sql_terminated,
            !old(self).sql_terminated ==> r is None && final(self).input@ == model_append(
                old(self).input@,
                '\n',
            ),
            old(self).sql_terminated ==> {
                &&& r is Some
                &&& r.unwrap()@ == buffer_text(old(self).input@)
                &&& final(self).input@ == empty_buffer()
            },
    {
        if self.sql_terminated {
            let sql = self.input.combine_lines();
            self.input.clear();
            self.sql_terminated = false;
            Option::Some(sql)
        } else {
            self.input.append_char('\n');
            Option::None
        }
    }

    /// Pass-through to the buffer's backspace; the termination flag is
    /// untouched.
    pub fn on_backspace(&mut self)
        requires
            old(self).wf(),
        ensures
            final(self).wf(),
            final(self).input@ == model_backspace(old(self).input@),
            final(self).sql_terminated == old(self).sql_terminated,
    {
        self.input.backspace();
    }

    /// Pass-through to the buffer's tab insertion; the termination flag is
    /// untouched.
    pub fn on_tab(&mut self)
        requires
            old(self).wf(),
            old(self).input@.col + 4 <= u16::MAX,
        ensures
            final(self).wf(),
            final(self).input@ == model_append(old(self).input@, '\t'),
            final(self).sql_terminated == old(self).sql_terminated,
    {
        self.input.tab();
    }

    pub fn get_cursor_row(&self) -> (r: u16)
        ensures
            r == self.input.cursor_row,
    {
        self.input.cursor_row
    }

    pub fn get_cursor_column(&self) -> (r: u16)
        ensures
            r == self.input.cursor_column,
    {
        self.input.cursor_column
    }

    /// Terminal coordinates for the cursor inside an editor pane drawn at
    /// the given origin: one column past the text, one line below the
    /// border.
    pub fn screen_cursor(&self, origin_x: u16, origin_y: u16) -> (p: (u16, u16))
        requires
            origin_x + self.input.cursor_column + 1 <= u16::MAX,
            origin_y + self.input.cursor_row + 1 <= u16::MAX,
        ensures
            p.0 == origin_x + self.input.cursor_column + 1,
            p.1 == origin_y + self.input.cursor_row + 1,
    {
        (origin_x + self.get_cursor_column() + 1, origin_y + self.get_cursor_row() + 1)
    }
}

impl Default for Editor {
    fn default() -> (r: Editor)
        ensures
            r.wf(),
            r.input@ == empty_buffer(),
            !r.sql_terminated,
    {
        Editor { input: Input::default(), sql_terminated: false }
    }
}

} // verus!
