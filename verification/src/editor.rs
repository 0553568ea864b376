//! A small multi-line text editor for request bodies (mostly JSON).
//!
//! The text is kept as a list of lines and a cursor `(row, col)`, where `col`
//! counts characters, not bytes.
use vstd::prelude::*;
use crate::text::{
    chars_of, decimal, decimal_chars_wide, push_all, slice_range, string_from_chars, trim,
};
use crate::json::{json_check, json_parse_error, json_pretty, json_to_pretty};

verus! {

/// Kind of content held by the editor.
#[derive(Debug, Clone, Copy, PartialEq, Eq, Structural)]
pub enum ContentType {
    Json,
    Xml,
    PlainText,
}

/// A key press, as far as the application tells keys apart.
#[derive(Debug, Clone, Copy, PartialEq, Eq, Structural)]
pub enum KeyInput {
    Esc,
    Tab,
    BackTab,
    Backspace,
    Delete,
    Left,
    Right,
    Up,
    Down,
    Enter,
    Home,
    End,
    /// A character key; `ctrl` tells whether Control was held.
    Char { c: char, ctrl: bool },
    /// Any key the editor does not handle.
    Other,
}

/// The abstract state of an editor.
pub struct EditorView {
    pub lines: Seq<Seq<char>>,
    pub row: int,
    pub col: int,
    pub dirty: bool,
    pub content_type: ContentType,
}

/// A text editor for request bodies.
#[derive(Debug)]
pub struct BodyEditor {
    lines: Vec<String>,
    cursor_row: usize,
    cursor_col: usize,
    offset_y: usize,
    dirty: bool,
    content_type: ContentType,
}

/// The views of a list of strings.
pub open spec fn string_views(v: Seq<String>) -> Seq<Seq<char>> {
    v.map_values(|s: String| s@)
}

/// `lines` joined with `'\n'` between them (`[String]::join("\n")`).
pub open spec fn join_lines(lines: Seq<Seq<char>>) -> Seq<char>
    decreases lines.len(),
{
    if lines.len() == 0 {
        seq![]
    } else if lines.len() == 1 {
        lines[0]
    } else {
        join_lines(lines.drop_last()) + seq!['\n'] + lines.last()
    }
}

/// `c` without one trailing carriage return.
pub open spec fn strip_cr(c: Seq<char>) -> Seq<char> {
    if c.len() > 0 && c.last() == '\r' {
        c.drop_last()
    } else {
        c
    }
}

/// Lines completed so far and the line being read, after reading `s` the way
/// `str::lines` does.
pub open spec fn lines_acc(s: Seq<char>) -> (Seq<Seq<char>>, Seq<char>)
    decreases s.len(),
{
    if s.len() == 0 {
        (seq![], seq![])
    } else {
        let (done, cur) = lines_acc(s.drop_last());
        if s.last() == '\n' {
            (done.push(strip_cr(cur)), seq![])
        } else {
            (done, cur.push(s.last()))
        }
    }
}

/// The lines of `s` as `str::lines` yields them: split at `'\n'`, one `'\r'`
/// before each `'\n'` dropped, no empty line after a final `'\n'`.
pub open spec fn text_lines(s: Seq<char>) -> Seq<Seq<char>> {
    let (done, cur) = lines_acc(s);
    if cur.len() > 0 {
        done.push(cur)
    } else {
        done
    }
}

/// Pieces read so far when splitting `s` at every `'\n'`.
pub open spec fn pieces_acc(s: Seq<char>) -> (Seq<Seq<char>>, Seq<char>)
    decreases s.len(),
{
    if s.len() == 0 {
        (seq![], seq![])
    } else {
        let (done, cur) = pieces_acc(s.drop_last());
        if s.last() == '\n' {
            (done.push(cur), seq![])
        } else {
            (done, cur.push(s.last()))
        }
    }
}

/// `s.split('\n')`: the pieces between newlines, empty ones included.
pub open spec fn split_pieces(s: Seq<char>) -> Seq<Seq<char>> {
    let (done, cur) = pieces_acc(s);
    done.push(cur)
}

/// The lines an editor starts with for a given content.
pub open spec fn initial_lines(s: Seq<char>) -> Seq<Seq<char>> {
    if s.len() == 0 {
        seq![seq![]]
    } else {
        text_lines(s)
    }
}

/// Curly quotes turned into straight ones.
pub open spec fn normalize_quote(c: char) -> char {
    if c == '\u{201C}' || c == '\u{201D}' {
        '"'
    } else if c == '\u{2018}' || c == '\u{2019}' {
        '\''
    } else {
        c
    }
}

pub open spec fn normalize_quotes(s: Seq<char>) -> Seq<char> {
    s.map_values(|c: char| normalize_quote(c))
}

/// The editor state after putting `s` into the cursor's line, cursor past it.
pub open spec fn insert_in_line(e: EditorView, s: Seq<char>) -> EditorView {
    let line = e.lines[e.row];
    EditorView {
        lines: e.lines.update(e.row, line.take(e.col) + s + line.skip(e.col)),
        col: e.col + s.len(),
        dirty: true,
        ..e
    }
}

/// The editor state after inserting `s` at the cursor.
pub open spec fn insert_text(e: EditorView, s: Seq<char>) -> EditorView {
    let line = e.lines[e.row];
    let before = line.take(e.col);
    let after = line.skip(e.col);
    let p = split_pieces(s);
    let n = p.len();
    if s.len() == 0 {
        e
    } else if n == 1 {
        insert_in_line(e, s)
    } else {
        EditorView {
            lines: e.lines.take(e.row) + seq![before + p[0]] + p.subrange(1, n - 1) + seq![
                p[n - 1] + after,
            ] + e.lines.skip(e.row + 1),
            row: (e.row + n - 1) as int,
            col: p[n - 1].len() as int,
            dirty: true,
            ..e
        }
    }
}

/// The state of an editor that holds `s`, cursor at its end.
pub open spec fn editor_with(s: Seq<char>, dirty: bool, ct: ContentType) -> EditorView {
    let ls = initial_lines(s);
    EditorView {
        lines: ls,
        row: (ls.len() - 1) as int,
        col: ls.last().len() as int,
        dirty,
        content_type: ct,
    }
}

/// The state of an empty editor.
pub open spec fn empty_editor(dirty: bool, ct: ContentType) -> EditorView {
    EditorView { lines: seq![seq![]], row: 0, col: 0, dirty, content_type: ct }
}

/// The lines with the cursor marker `'█'` put in at the cursor.
pub open spec fn lines_with_cursor(e: EditorView) -> Seq<Seq<char>> {
    let line = e.lines[e.row];
    e.lines.update(e.row, line.take(e.col) + seq!['█'] + line.skip(e.col))
}

impl View for BodyEditor {
    type V = EditorView;

    closed spec fn view(&self) -> EditorView {
        EditorView {
            lines: string_views(self.lines@),
            row: self.cursor_row as int,
            col: self.cursor_col as int,
            dirty: self.dirty,
            content_type: self.content_type,
        }
    }
}

/// Backspace: the state after it and whether anything was deleted.
pub open spec fn backspace_effect(e: EditorView) -> (EditorView, bool) {
    let line = e.lines[e.row];
    if e.col > 0 {
        (EditorView {
            lines: e.lines.update(e.row, line.take(e.col - 1) + line.skip(e.col)),
            col: e.col - 1,
            dirty: true,
            ..e
        }, true)
    } else if e.row > 0 {
        let prev = e.lines[e.row - 1];
        (EditorView {
            lines: e.lines.take(e.row - 1) + seq![prev + line] + e.lines.skip(e.row + 1),
            row: e.row - 1,
            col: prev.len() as int,
            dirty: true,
            ..e
        }, true)
    } else {
        (e, false)
    }
}

/// Delete: the state after it and whether anything was deleted.
pub open spec fn delete_effect(e: EditorView) -> (EditorView, bool) {
    let line = e.lines[e.row];
    if e.col < line.len() {
        (EditorView {
            lines: e.lines.update(e.row, line.take(e.col) + line.skip(e.col + 1)),
            dirty: true,
            ..e
        }, true)
    } else if e.row + 1 < e.lines.len() {
        (EditorView {
            lines: e.lines.take(e.row) + seq![line + e.lines[e.row + 1]] + e.lines.skip(e.row + 2),
            dirty: true,
            ..e
        }, true)
    } else {
        (e, false)
    }
}

/// Cursor one character left: the state after it and whether it moved.
pub open spec fn left_effect(e: EditorView) -> (EditorView, bool) {
    if e.col > 0 {
        (EditorView { col: e.col - 1, ..e }, true)
    } else if e.row > 0 {
        (EditorView { row: e.row - 1, col: e.lines[e.row - 1].len() as int, ..e }, true)
    } else {
        (e, false)
    }
}

/// Cursor one character right: the state after it and whether it moved.
pub open spec fn right_effect(e: EditorView) -> (EditorView, bool) {
    if e.col < e.lines[e.row].len() {
        (EditorView { col: e.col + 1, ..e }, true)
    } else if e.row + 1 < e.lines.len() {
        (EditorView { row: e.row + 1, col: 0, ..e }, true)
    } else {
        (e, false)
    }
}

/// Cursor one line up: the state after it and whether it moved.
pub open spec fn up_effect(e: EditorView) -> (EditorView, bool) {
    if e.row > 0 {
        let len = e.lines[e.row - 1].len() as int;
        (EditorView { row: e.row - 1, col: if e.col < len { e.col } else { len }, ..e }, true)
    } else {
        (e, false)
    }
}

/// Cursor one line down: the state after it and whether it moved.
pub open spec fn down_effect(e: EditorView) -> (EditorView, bool) {
    if e.row + 1 < e.lines.len() {
        let len = e.lines[e.row + 1].len() as int;
        (EditorView { row: e.row + 1, col: if e.col < len { e.col } else { len }, ..e }, true)
    } else {
        (e, false)
    }
}

/// The line split at the cursor, the cursor at the start of the second part.
pub open spec fn newline_effect(e: EditorView) -> EditorView {
    let line = e.lines[e.row];
    EditorView {
        lines: e.lines.take(e.row) + seq![line.take(e.col), line.skip(e.col)] + e.lines.skip(e.row + 1),
        row: e.row + 1,
        col: 0,
        dirty: true,
        ..e
    }
}

/// The state after a key press and whether the key was handled.
pub open spec fn key_effect(e: EditorView, key: KeyInput) -> (EditorView, bool) {
    match key {
        KeyInput::Backspace => backspace_effect(e),
        KeyInput::Delete => delete_effect(e),
        KeyInput::Left => left_effect(e),
        KeyInput::Right => right_effect(e),
        KeyInput::Up => up_effect(e),
        KeyInput::Down => down_effect(e),
        KeyInput::Enter => (newline_effect(e), true),
        KeyInput::Home => (EditorView { col: 0, ..e }, true),
        KeyInput::End => (EditorView { col: e.lines[e.row].len() as int, ..e }, true),
        KeyInput::Char { c, ctrl } => if ctrl {
            if c == 'a' {
                (EditorView { col: 0, ..e }, true)
            } else if c == 'e' {
                (EditorView { col: e.lines[e.row].len() as int, ..e }, true)
            } else if c == 'l' {
                (empty_editor(true, e.content_type), true)
            } else {
                (e, false)
            }
        } else {
            (insert_in_line(e, seq![c]), true)
        },
        KeyInput::Esc | KeyInput::Tab | KeyInput::BackTab | KeyInput::Other => (e, false),
    }
}

/// The editor invariant: at least one line, the cursor on a line and within it.
pub open spec fn editor_wf(e: EditorView) -> bool {
    &&& e.lines.len() >= 1
    &&& 0 <= e.row < e.lines.len()
    &&& 0 <= e.col
    &&& e.col <= e.lines[e.row].len()
}

/// Splits `s` the way `str::lines` does.
pub fn split_text_lines(s: &[char]) -> (r: Vec<String>)
    ensures
        string_views(r@) == text_lines(s@),
{
    let mut done: Vec<String> = Vec::new();
    let mut cur: Vec<char> = Vec::new();
    let mut i: usize = 0;
    while i < s.len()
        invariant
            i <= s@.len(),
            (string_views(done@), cur@) == lines_acc(s@.take(i as int)),
        decreases s@.len() - i,
    {
        assert(s@.take(i + 1).drop_last() =~= s@.take(i as int));
        if s[i] == '\n' {
            let n = cur.len();
            let line = if n > 0 && cur[n - 1] == '\r' {
                string_from_chars(slice_range(cur.as_slice(), 0, n - 1).as_slice())
            } else {
                string_from_chars(cur.as_slice())
            };
            proof {
                if n > 0 && cur@[n - 1] == '\r' {
                    assert(cur@.subrange(0, n - 1) =~= cur@.drop_last());
                }
            }
            done.push(line);
            cur = Vec::new();
            assert(string_views(done@) =~= string_views(old_done(done@)).push(line@));
        } else {
            cur.push(s[i]);
        }
        i = i + 1;
    }
    assert(s@.take(i as int) =~= s@);
    if cur.len() > 0 {
        let last = string_from_chars(cur.as_slice());
        done.push(last);
        assert(string_views(done@) =~= string_views(old_done(done@)).push(last@));
    }
    done
}

spec fn old_done(v: Seq<String>) -> Seq<String> {
    v.drop_last()
}

/// Splits `s` at every `'\n'` (`str::split('\n')`).
fn split_on_newline(s: &[char]) -> (r: Vec<Vec<char>>)
    ensures
        r@.map_values(|v: Vec<char>| v@) == split_pieces(s@),
{
    let mut done: Vec<Vec<char>> = Vec::new();
    let mut cur: Vec<char> = Vec::new();
    let mut i: usize = 0;
    while i < s.len()
        invariant
            i <= s@.len(),
            (done@.map_values(|v: Vec<char>| v@), cur@) == pieces_acc(s@.take(i as int)),
        decreases s@.len() - i,
    {
        assert(s@.take(i + 1).drop_last() =~= s@.take(i as int));
        if s[i] == '\n' {
            let ghost before = done@;
            done.push(cur);
            cur = Vec::new();
            assert(done@.map_values(|v: Vec<char>| v@) =~= before.map_values(|v: Vec<char>| v@).push(
                done@.last()@,
            ));
        } else {
            cur.push(s[i]);
        }
        i = i + 1;
    }
    assert(s@.take(i as int) =~= s@);
    let ghost before = done@;
    done.push(cur);
    assert(done@.map_values(|v: Vec<char>| v@) =~= before.map_values(|v: Vec<char>| v@).push(
        done@.last()@,
    ));
    done
}

/// `lines` joined with newlines.
fn join_with_newline(lines: &Vec<String>) -> (r: Vec<char>)
    ensures
        r@ == join_lines(string_views(lines@)),
{
    let mut out: Vec<char> = Vec::new();
    let mut i: usize = 0;
    while i < lines.len()
        invariant
            i <= lines@.len(),
            out@ == join_lines(string_views(lines@).take(i as int)),
        decreases lines@.len() - i,
    {
        let ghost prefix = string_views(lines@).take(i + 1);
        assert(prefix.drop_last() =~= string_views(lines@).take(i as int));
        if i > 0 {
            out.push('\n');
        }
        let line = chars_of(lines[i].as_str());
        push_all(&mut out, line.as_slice());
        i = i + 1;
    }
    assert(string_views(lines@).take(i as int) =~= string_views(lines@));
    out
}

/// Curly quotes replaced by straight ones.
fn normalize(s: &[char]) -> (r: Vec<char>)
    ensures
        r@ == normalize_quotes(s@),
{
    let mut r: Vec<char> = Vec::new();
    let mut i: usize = 0;
    while i < s.len()
        invariant
            i <= s@.len(),
            r@ == normalize_quotes(s@.take(i as int)),
        decreases s@.len() - i,
    {
        let c = s[i];
        let d = if c == '\u{201C}' || c == '\u{201D}' {
            '"'
        } else if c == '\u{2018}' || c == '\u{2019}' {
            '\''
        } else {
            c
        };
        r.push(d);
        i = i + 1;
        assert(normalize_quotes(s@.take(i as int)) =~= normalize_quotes(s@.take(i - 1)).push(
            normalize_quote(s@[i - 1]),
        ));
    }
    assert(s@.take(i as int) =~= s@);
    r
}

impl BodyEditor {
    pub closed spec fn wf(&self) -> bool {
        editor_wf(self@)
    }

    proof fn lemma_view(&self)
        ensures
            self@.lines.len() == self.lines@.len(),
            forall|i: int| 0 <= i < self.lines@.len() ==> #[trigger] self@.lines[i] == self.lines@[i]@,
    {
    }

    /// Creates an empty editor.
    pub fn new() -> (e: Self)
        ensures
            e.wf(),
            e@ == empty_editor(false, ContentType::Json),
    {
        let mut lines: Vec<String> = Vec::new();
        lines.push(String::new());
        let e = BodyEditor {
            lines,
            cursor_row: 0,
            cursor_col: 0,
            offset_y: 0,
            dirty: false,
            content_type: ContentType::Json,
        };
        assert(e@.lines =~= seq![seq![]]);
        e
    }

    fn lines_for(content: &str) -> (r: Vec<String>)
        ensures
            string_views(r@) == initial_lines(content@),
            r@.len() >= 1,
    {
        let cs = chars_of(content);
        if cs.len() == 0 {
            let mut v: Vec<String> = Vec::new();
            v.push(String::new());
            assert(string_views(v@) =~= seq![seq![]]);
            v
        } else {
            let v = split_text_lines(cs.as_slice());
            proof {
                lemma_text_lines_nonempty(content@);
            }
            v
        }
    }

    /// Creates an editor holding `content`, the cursor at the end of its last line.
    pub fn with_content(content: String) -> (e: Self)
        ensures
            e.wf(),
            e@ == editor_with(content@, false, ContentType::Json),
    {
        let lines = Self::lines_for(content.as_str());
        let row = lines.len() - 1;
        let col = chars_of(lines[row].as_str()).len();
        BodyEditor { lines, cursor_row: row, cursor_col: col, offset_y: 0, dirty: false, content_type: ContentType::Json }
    }

    /// The whole text, lines joined with `'\n'`.
    pub fn content(&self) -> (r: String)
        ensures
            r@ == join_lines(self@.lines),
    {
        let v = join_with_newline(&self.lines);
        string_from_chars(v.as_slice())
    }

    /// The cursor as `(row, col)`.
    pub fn cursor(&self) -> (r: (usize, usize))
        ensures
            r.0 == self@.row,
            r.1 == self@.col,
    {
        (self.cursor_row, self.cursor_col)
    }

    /// The lines of the text.
    pub fn lines(&self) -> (r: &[String])
        ensures
            string_views(r@) == self@.lines,
    {
        self.lines.as_slice()
    }

    /// The text with the cursor marker `'█'` at the cursor.
    pub fn content_with_cursor(&self) -> (r: String)
        requires
            self.wf(),
        ensures
            r@ == join_lines(lines_with_cursor(self@)),
    {
        let mut marked: Vec<String> = Vec::new();
        let mut i: usize = 0;
        while i < self.lines.len()
            invariant
                self.wf(),
                i <= self.lines@.len(),
                string_views(marked@) == lines_with_cursor(self@).take(i as int),
            decreases self.lines@.len() - i,
        {
            proof {
                self.lemma_view();
            }
            let ghost before = marked@;
            if i == self.cursor_row {
                let line = chars_of(self.lines[i].as_str());
                let mut m = slice_range(line.as_slice(), 0, self.cursor_col);
                m.push('█');
                let rest = slice_range(line.as_slice(), self.cursor_col, line.len());
                push_all(&mut m, rest.as_slice());
                assert(m@ =~= lines_with_cursor(self@)[i as int]);
                marked.push(string_from_chars(m.as_slice()));
            } else {
                let l = self.lines[i].clone();
                assert(l@ == lines_with_cursor(self@)[i as int]);
                marked.push(l);
            }
            i = i + 1;
            assert(string_views(marked@) =~= string_views(before).push(marked@.last()@));
            assert(lines_with_cursor(self@).take(i as int) =~= lines_with_cursor(self@).take(
                i - 1,
            ).push(lines_with_cursor(self@)[i - 1]));
        }
        proof {
            self.lemma_view();
        }
        assert(lines_with_cursor(self@).take(i as int) =~= lines_with_cursor(self@));
        let v = join_with_newline(&marked);
        string_from_chars(v.as_slice())
    }

    /// `"Ln {row + 1}, Col {col + 1}"`.
    pub fn cursor_position_display(&self) -> (r: String)
        ensures
            r@ == "Ln "@ + decimal((self@.row + 1) as nat) + ", Col "@ + decimal((self@.col + 1) as nat),
    {
        let mut v = chars_of("Ln ");
        let row = decimal_chars_succ(self.cursor_row);
        push_all(&mut v, row.as_slice());
        let sep = chars_of(", Col ");
        push_all(&mut v, sep.as_slice());
        let col = decimal_chars_succ(self.cursor_col);
        push_all(&mut v, col.as_slice());
        string_from_chars(v.as_slice())
    }

    /// Whether the text changed since it was last marked saved.
    pub fn is_dirty(&self) -> (r: bool)
        ensures
            r == self@.dirty,
    {
        self.dirty
    }

    /// Sets the content type.
    pub fn set_content_type(&mut self, content_type: ContentType)
        ensures
            final(self)@ == (EditorView { content_type, ..old(self)@ }),
    {
        self.content_type = content_type;
    }

    /// The content type.
    pub fn content_type(&self) -> (r: &ContentType)
        ensures
            *r == self@.content_type,
    {
        &self.content_type
    }

    /// Empties the editor; the text counts as changed.
    pub fn clear(&mut self)
        ensures
            final(self).wf(),
            final(self)@ == empty_editor(true, old(self)@.content_type),
    {
        let mut lines: Vec<String> = Vec::new();
        lines.push(String::new());
        self.lines = lines;
        self.cursor_row = 0;
        self.cursor_col = 0;
        self.offset_y = 0;
        self.dirty = true;
        assert(self@.lines =~= seq![seq![]]);
    }

    /// Replaces the whole text, cursor at the end of the last line.
    pub fn set_content(&mut self, content: String)
        ensures
            final(self).wf(),
            final(self)@ == editor_with(content@, true, old(self)@.content_type),
    {
        let lines = Self::lines_for(content.as_str());
        let row = lines.len() - 1;
        let col = chars_of(lines[row].as_str()).len();
        self.lines = lines;
        self.cursor_row = row;
        self.cursor_col = col;
        self.offset_y = 0;
        self.dirty = true;
    }

    /// Inserts `c` at the cursor and moves the cursor past it.
    pub fn insert_char(&mut self, c: char)
        requires
            old(self).wf(),
        ensures
            final(self).wf(),
            final(self)@ == insert_in_line(old(self)@, seq![c]),
    {
        proof {
            self.lemma_view();
        }
        let line = chars_of(self.lines[self.cursor_row].as_str());
        let mut m = slice_range(line.as_slice(), 0, self.cursor_col);
        m.push(c);
        let new_col = m.len();
        let rest = slice_range(line.as_slice(), self.cursor_col, line.len());
        push_all(&mut m, rest.as_slice());
        self.lines.set(self.cursor_row, string_from_chars(m.as_slice()));
        self.cursor_col = new_col;
        self.dirty = true;
        assert(m@ =~= line@.take(old(self)@.col) + seq![c] + line@.skip(old(self)@.col));
        assert(self@.lines =~= insert_in_line(old(self)@, seq![c]).lines);
    }

    /// Inserts `s` at the cursor, splitting lines at each `'\n'` in it, and
    /// moves the cursor to the end of the inserted text. An empty `s`
    /// changes nothing.
    pub fn insert_str(&mut self, s: &str)
        requires
            old(self).wf(),
        ensures
            final(self).wf(),
            final(self)@ == insert_text(old(self)@, s@),
    {
        let cs = chars_of(s);
        self.insert_chars(cs.as_slice());
    }

    fn insert_chars(&mut self, s: &[char])
        requires
            old(self).wf(),
        ensures
            final(self).wf(),
            final(self)@ == insert_text(old(self)@, s@),
    {
        if s.len() == 0 {
            return;
        }
        proof {
            self.lemma_view();
        }
        let pieces = split_on_newline(s);
        let ghost p = pieces@.map_values(|v: Vec<char>| v@);
        assert(p.len() == pieces@.len());
        assert(forall|i: int| 0 <= i < pieces@.len() ==> #[trigger] p[i] == pieces@[i]@);
        proof {
            lemma_split_pieces_len(s@);
        }
        let line = chars_of(self.lines[self.cursor_row].as_str());
        let col = self.cursor_col;
        let before = slice_range(line.as_slice(), 0, col);
        let after = slice_range(line.as_slice(), col, line.len());
        let n = pieces.len();
        if n == 1 {
            proof {
                lemma_split_single(s@);
            }
            let mut m = before;
            push_all(&mut m, s);
            let new_col = m.len();
            push_all(&mut m, after.as_slice());
            self.lines.set(self.cursor_row, string_from_chars(m.as_slice()));
            self.cursor_col = new_col;
            self.dirty = true;
            assert(self@.lines =~= insert_text(old(self)@, s@).lines);
        } else {
            let row = self.cursor_row;
            let mut first = before;
            push_all(&mut first, pieces[0].as_slice());
            let mut last = slice_range(pieces[n - 1].as_slice(), 0, pieces[n - 1].len());
            assert(last@ =~= p[n - 1]);
            let last_len = last.len();
            push_all(&mut last, after.as_slice());
            assert(first@ == before@ + p[0]);
            let mut new_lines: Vec<String> = Vec::new();
            let mut i: usize = 0;
            while i < row
                invariant
                    i <= row < self.lines@.len(),
                    string_views(new_lines@) == string_views(self.lines@).take(i as int),
                decreases row - i,
            {
                let ghost b = new_lines@;
                new_lines.push(self.lines[i].clone());
                i = i + 1;
                assert(string_views(new_lines@) =~= string_views(b).push(new_lines@.last()@));
                assert(string_views(self.lines@).take(i as int) =~= string_views(self.lines@).take(
                    i - 1,
                ).push(self.lines@[i - 1]@));
            }
            let ghost b0 = new_lines@;
            new_lines.push(string_from_chars(first.as_slice()));
            assert(string_views(new_lines@) =~= string_views(b0).push(new_lines@.last()@));
            let mut k: usize = 1;
            while k < n - 1
                invariant
                    2 <= n == pieces@.len() == p.len(),
                    1 <= k <= n - 1,
                    forall|j: int| 0 <= j < pieces@.len() ==> #[trigger] p[j] == pieces@[j]@,
                    string_views(new_lines@) == string_views(self.lines@).take(row as int) + seq![
                        before@ + p[0],
                    ] + p.subrange(1, k as int),
                decreases n - k,
            {
                let ghost b = new_lines@;
                new_lines.push(string_from_chars(pieces[k].as_slice()));
                k = k + 1;
                assert(string_views(new_lines@) =~= string_views(b).push(new_lines@.last()@));
                assert(p.subrange(1, k as int) =~= p.subrange(1, k - 1).push(p[k - 1]));
            }
            let ghost b1 = new_lines@;
            new_lines.push(string_from_chars(last.as_slice()));
            assert(string_views(new_lines@) =~= string_views(b1).push(new_lines@.last()@));
            assert(row < self.lines.len());
            let mut j: usize = row + 1;
            assert(string_views(self.lines@).subrange(row + 1, j as int) =~= Seq::<Seq<char>>::empty());
            assert(string_views(new_lines@) =~= string_views(self.lines@).take(row as int) + seq![
                before@ + p[0],
            ] + p.subrange(1, n - 1) + seq![p[n - 1] + after@] + string_views(
                self.lines@,
            ).subrange(row + 1, j as int));
            while j < self.lines.len()
                invariant
                    row < j <= self.lines@.len(),
                    string_views(new_lines@) == string_views(self.lines@).take(row as int) + seq![
                        before@ + p[0],
                    ] + p.subrange(1, n - 1) + seq![p[n - 1] + after@] + string_views(
                        self.lines@,
                    ).subrange(row + 1, j as int),
                decreases self.lines@.len() - j,
            {
                let ghost b = new_lines@;
                new_lines.push(self.lines[j].clone());
                j = j + 1;
                assert(string_views(new_lines@) =~= string_views(b).push(new_lines@.last()@));
                assert(string_views(self.lines@).subrange(row + 1, j as int) =~= string_views(
                    self.lines@,
                ).subrange(row + 1, j - 1).push(self.lines@[j - 1]@));
            }
            assert(string_views(self.lines@).subrange(row + 1, j as int) =~= string_views(
                self.lines@,
            ).skip(row + 1));
            let total = new_lines.len();
            assert(string_views(new_lines@).len() == new_lines@.len());
            let new_row = row + (n - 1);
            self.lines = new_lines;
            self.cursor_row = new_row;
            self.cursor_col = last_len;
            self.dirty = true;
            assert(self@.lines =~= insert_text(old(self)@, s@).lines);
        }
    }

    /// Inserts `s` with curly quotes replaced by straight ones.
    pub fn insert_str_normalized(&mut self, s: &str)
        requires
            old(self).wf(),
        ensures
            final(self).wf(),
            final(self)@ == insert_text(old(self)@, normalize_quotes(s@)),
    {
        let cs = chars_of(s);
        let n = normalize(cs.as_slice());
        self.insert_chars(n.as_slice());
    }

    /// Backspace: deletes the character before the cursor, or joins the line
    /// with the one above when the cursor is at the start of a line. Returns
    /// whether anything was deleted.
    pub fn delete_char_before_cursor(&mut self) -> (r: bool)
        requires
            old(self).wf(),
        ensures
            final(self).wf(),
            (final(self)@, r) == backspace_effect(old(self)@),
    {
        proof {
            self.lemma_view();
        }
        let row = self.cursor_row;
        let col = self.cursor_col;
        if col > 0 {
            let line = chars_of(self.lines[row].as_str());
            let mut m = slice_range(line.as_slice(), 0, col - 1);
            let rest = slice_range(line.as_slice(), col, line.len());
            push_all(&mut m, rest.as_slice());
            self.lines.set(row, string_from_chars(m.as_slice()));
            self.cursor_col = col - 1;
            self.dirty = true;
            assert(self@.lines =~= old(self)@.lines.update(
                row as int,
                old(self)@.lines[row as int].take(col - 1) + old(self)@.lines[row as int].skip(
                    col as int,
                ),
            ));
            true
        } else if row > 0 {
            let prev = chars_of(self.lines[row - 1].as_str());
            let line = chars_of(self.lines[row].as_str());
            let prev_len = prev.len();
            let mut joined = prev;
            push_all(&mut joined, line.as_slice());
            let ghost before = self.lines@;
            self.lines.remove(row);
            self.lines.set(row - 1, string_from_chars(joined.as_slice()));
            self.cursor_row = row - 1;
            self.cursor_col = prev_len;
            self.dirty = true;
            assert(self@.lines =~= old(self)@.lines.take(row - 1) + seq![
                old(self)@.lines[row - 1] + old(self)@.lines[row as int],
            ] + old(self)@.lines.skip(row + 1));
            true
        } else {
            false
        }
    }

    /// Delete: deletes the character after the cursor, or joins the next line
    /// to this one when the cursor is at the end of a line. Returns whether
    /// anything was deleted.
    pub fn delete_char_after_cursor(&mut self) -> (r: bool)
        requires
            old(self).wf(),
        ensures
            final(self).wf(),
            (final(self)@, r) == delete_effect(old(self)@),
    {
        proof {
            self.lemma_view();
        }
        let row = self.cursor_row;
        let col = self.cursor_col;
        let line = chars_of(self.lines[row].as_str());
        if col < line.len() {
            let mut m = slice_range(line.as_slice(), 0, col);
            let rest = slice_range(line.as_slice(), col + 1, line.len());
            push_all(&mut m, rest.as_slice());
            self.lines.set(row, string_from_chars(m.as_slice()));
            self.dirty = true;
            assert(self@.lines =~= old(self)@.lines.update(
                row as int,
                old(self)@.lines[row as int].take(col as int) + old(self)@.lines[row as int].skip(
                    col + 1,
                ),
            ));
            true
        } else if row < self.lines.len() - 1 {
            let next = chars_of(self.lines[row + 1].as_str());
            let mut joined = line;
            push_all(&mut joined, next.as_slice());
            self.lines.remove(row + 1);
            self.lines.set(row, string_from_chars(joined.as_slice()));
            self.dirty = true;
            assert(self@.lines =~= old(self)@.lines.take(row as int) + seq![
                old(self)@.lines[row as int] + old(self)@.lines[row + 1],
            ] + old(self)@.lines.skip(row + 2));
            true
        } else {
            false
        }
    }

    /// Moves the cursor one character left, to the end of the line above when
    /// at the start of a line. Returns whether it moved.
    pub fn move_cursor_left(&mut self) -> (r: bool)
        requires
            old(self).wf(),
        ensures
            final(self).wf(),
            (final(self)@, r) == left_effect(old(self)@),
    {
        proof {
            self.lemma_view();
        }
        if self.cursor_col > 0 {
            self.cursor_col = self.cursor_col - 1;
            true
        } else if self.cursor_row > 0 {
            self.cursor_row = self.cursor_row - 1;
            self.cursor_col = chars_of(self.lines[self.cursor_row].as_str()).len();
            true
        } else {
            false
        }
    }

    /// Moves the cursor one character right, to the start of the next line
    /// when at the end of a line. Returns whether it moved.
    pub fn move_cursor_right(&mut self) -> (r: bool)
        requires
            old(self).wf(),
        ensures
            final(self).wf(),
            (final(self)@, r) == right_effect(old(self)@),
    {
        proof {
            self.lemma_view();
        }
        let len = chars_of(self.lines[self.cursor_row].as_str()).len();
        if self.cursor_col < len {
            self.cursor_col = self.cursor_col + 1;
            true
        } else if self.cursor_row < self.lines.len() - 1 {
            self.cursor_row = self.cursor_row + 1;
            self.cursor_col = 0;
            true
        } else {
            false
        }
    }

    /// Moves the cursor to the start of its line.
    pub fn move_cursor_to_start(&mut self)
        requires
            old(self).wf(),
        ensures
            final(self).wf(),
            final(self)@ == (EditorView { col: 0, ..old(self)@ }),
    {
        self.cursor_col = 0;
    }

    /// Moves the cursor to the end of its line.
    pub fn move_cursor_to_end(&mut self)
        requires
            old(self).wf(),
        ensures
            final(self).wf(),
            final(self)@ == (EditorView {
                col: old(self)@.lines[old(self)@.row].len() as int,
                ..old(self)@
            }),
    {
        proof {
            self.lemma_view();
        }
        self.cursor_col = chars_of(self.lines[self.cursor_row].as_str()).len();
    }

    /// Pretty-prints the text when it is valid JSON (the cursor then goes to
    /// the end); otherwise leaves it as it is and reports the parse error.
    /// After a success the text is the pretty-printed text, which is valid
    /// JSON (so formatting again succeeds) and not blank.
    pub fn format_json(&mut self) -> (r: Result<(), String>)
        requires
            old(self).wf(),
        ensures
            final(self).wf(),
            ({
                let text = join_lines(old(self)@.lines);
                match json_parse_error(text) {
                    None => r is Ok && final(self)@ == editor_with(
                        json_pretty(text),
                        true,
                        old(self)@.content_type,
                    ),
                    Some(m) => r == Err::<(), String>(r->Err_0) && r->Err_0@ == "Invalid JSON: "@
                        + m && final(self)@ == old(self)@,
                }
            }),
            r is Ok ==> join_lines(final(self)@.lines) == json_pretty(join_lines(old(self)@.lines)),
            r is Ok ==> json_parse_error(join_lines(final(self)@.lines)) is None,
            r is Ok ==> trim(join_lines(final(self)@.lines)).len() > 0,
    {
        let content = self.content();
        match json_check(content.as_str()) {
            Ok(_) => {
                let pretty = json_to_pretty(content.as_str());
                proof {
                    crate::laws::law_editor_gives_text_back(pretty@, true, self@.content_type);
                }
                self.set_content(pretty);
                Ok(())
            },
            Err(m) => Err(invalid_json_message(m.as_str())),
        }
    }

    /// Checks that the text is valid JSON.
    pub fn validate_json(&self) -> (r: Result<(), String>)
        ensures
            match json_parse_error(join_lines(self@.lines)) {
                None => r is Ok,
                Some(m) => r is Err && r->Err_0@ == "Invalid JSON: "@ + m,
            },
    {
        let content = self.content();
        match json_check(content.as_str()) {
            Ok(_) => Ok(()),
            Err(m) => Err(invalid_json_message(m.as_str())),
        }
    }

    /// Marks the text as saved.
    pub fn mark_saved(&mut self)
        ensures
            final(self)@ == (EditorView { dirty: false, ..old(self)@ }),
    {
        self.dirty = false;
    }

    /// Moves the cursor one line up, keeping its column when the line is long
    /// enough. Returns whether it moved.
    pub fn move_cursor_up(&mut self) -> (r: bool)
        requires
            old(self).wf(),
        ensures
            final(self).wf(),
            (final(self)@, r) == up_effect(old(self)@),
    {
        proof {
            self.lemma_view();
        }
        if self.cursor_row > 0 {
            self.cursor_row = self.cursor_row - 1;
            let len = chars_of(self.lines[self.cursor_row].as_str()).len();
            if len < self.cursor_col {
                self.cursor_col = len;
            }
            true
        } else {
            false
        }
    }

    /// Moves the cursor one line down, keeping its column when the line is
    /// long enough. Returns whether it moved.
    pub fn move_cursor_down(&mut self) -> (r: bool)
        requires
            old(self).wf(),
        ensures
            final(self).wf(),
            (final(self)@, r) == down_effect(old(self)@),
    {
        proof {
            self.lemma_view();
        }
        if self.cursor_row < self.lines.len() - 1 {
            self.cursor_row = self.cursor_row + 1;
            let len = chars_of(self.lines[self.cursor_row].as_str()).len();
            if len < self.cursor_col {
                self.cursor_col = len;
            }
            true
        } else {
            false
        }
    }

    /// Splits the line at the cursor; the cursor goes to the start of the new line.
    pub fn insert_newline(&mut self)
        requires
            old(self).wf(),
        ensures
            final(self).wf(),
            final(self)@ == newline_effect(old(self)@),
    {
        proof {
            self.lemma_view();
        }
        let row = self.cursor_row;
        let n_lines = self.lines.len();
        let next = row + 1;
        let line = chars_of(self.lines[row].as_str());
        let before = slice_range(line.as_slice(), 0, self.cursor_col);
        let after = slice_range(line.as_slice(), self.cursor_col, line.len());
        self.lines.set(row, string_from_chars(before.as_slice()));
        self.lines.insert(next, string_from_chars(after.as_slice()));
        self.cursor_row = next;
        self.cursor_col = 0;
        self.dirty = true;
        assert(self@.lines =~= old(self)@.lines.take(row as int) + seq![
            old(self)@.lines[row as int].take(old(self)@.col as int),
            old(self)@.lines[row as int].skip(old(self)@.col as int),
        ] + old(self)@.lines.skip(row + 1));
    }
}

impl Default for BodyEditor {
    /// An empty editor (see `BodyEditor::new`).
    fn default() -> (e: Self)
        ensures
            e.wf(),
            e@ == empty_editor(false, ContentType::Json),
    {
        BodyEditor::new()
    }
}

impl BodyEditor {
    /// Handles one key press; returns whether the key was handled.
    pub fn handle_key_event(&mut self, key: KeyInput) -> (r: bool)
        requires
            old(self).wf(),
        ensures
            final(self).wf(),
            (final(self)@, r) == key_effect(old(self)@, key),
    {
        match key {
            KeyInput::Backspace => self.delete_char_before_cursor(),
            KeyInput::Delete => self.delete_char_after_cursor(),
            KeyInput::Left => self.move_cursor_left(),
            KeyInput::Right => self.move_cursor_right(),
            KeyInput::Up => self.move_cursor_up(),
            KeyInput::Down => self.move_cursor_down(),
            KeyInput::Enter => {
                self.insert_newline();
                true
            },
            KeyInput::Home => {
                self.move_cursor_to_start();
                true
            },
            KeyInput::End => {
                self.move_cursor_to_end();
                true
            },
            KeyInput::Char { c, ctrl } => {
                if ctrl {
                    if c == 'a' {
                        self.move_cursor_to_start();
                        true
                    } else if c == 'e' {
                        self.move_cursor_to_end();
                        true
                    } else if c == 'l' {
                        self.clear();
                        true
                    } else {
                        false
                    }
                } else {
                    self.insert_char(c);
                    true
                }
            },
            KeyInput::Esc | KeyInput::Tab | KeyInput::BackTab | KeyInput::Other => false,
        }
    }
}

/// `"Invalid JSON: "` followed by `m`.
fn invalid_json_message(m: &str) -> (r: String)
    ensures
        r@ == "Invalid JSON: "@ + m@,
{
    let mut v = chars_of("Invalid JSON: ");
    let t = chars_of(m);
    push_all(&mut v, t.as_slice());
    string_from_chars(v.as_slice())
}

/// Decimal digits of `n + 1`.
fn decimal_chars_succ(n: usize) -> (r: Vec<char>)
    ensures
        r@ == decimal((n + 1) as nat),
{
    decimal_chars_wide(n as u128 + 1)
}

/// A non-empty text has at least one line.
pub proof fn lemma_text_lines_nonempty(s: Seq<char>)
    ensures
        s.len() > 0 ==> text_lines(s).len() >= 1,
{
    if s.len() > 0 {
        let (done, cur) = lines_acc(s.drop_last());
        if s.last() == '\n' {
            assert(lines_acc(s).0 == done.push(strip_cr(cur)));
        } else {
            assert(lines_acc(s).1 == cur.push(s.last()));
        }
    }
}

proof fn lemma_pieces_acc_len(s: Seq<char>)
    ensures
        pieces_acc(s).0.len() + pieces_acc(s).1.len() <= s.len(),
    decreases s.len(),
{
    if s.len() > 0 {
        lemma_pieces_acc_len(s.drop_last());
    }
}

/// `s` splits into at least one and at most `s.len() + 1` pieces.
proof fn lemma_split_pieces_len(s: Seq<char>)
    ensures
        1 <= split_pieces(s).len() <= s.len() + 1,
{
    lemma_pieces_acc_len(s);
}

/// A text that splits into a single piece has no newline: the piece is the text.
proof fn lemma_split_single(s: Seq<char>)
    requires
        split_pieces(s).len() == 1,
    ensures
        split_pieces(s) =~= seq![s],
    decreases s.len(),
{
    if s.len() > 0 {
        let (d, c) = pieces_acc(s.drop_last());
        if s.last() == '\n' {
            assert(pieces_acc(s) == (d.push(c), Seq::<char>::empty()));
            assert(false);
        } else {
            assert(pieces_acc(s) == (d, c.push(s.last())));
            lemma_split_single(s.drop_last());
            assert(d =~= Seq::<Seq<char>>::empty());
            assert(split_pieces(s.drop_last()) == d.push(c));
            assert(d.push(c)[0] == c);
            assert(seq![s.drop_last()][0] == s.drop_last());
            assert(c == s.drop_last());
            assert(s.drop_last().push(s.last()) =~= s);
            assert(split_pieces(s) == d.push(s));
        }
    } else {
        assert(pieces_acc(s) == (Seq::<Seq<char>>::empty(), Seq::<char>::empty()));
        assert(s =~= Seq::<char>::empty());
    }
}

} // verus!
