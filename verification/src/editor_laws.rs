//! The editor behaves like a flat text with a cursor in it: these laws state
//! each editing operation in terms of the text before and after the cursor.
use vstd::prelude::*;
use crate::editor::{
    backspace_effect, delete_effect, down_effect, editor_with, editor_wf, empty_editor,
    insert_in_line, insert_text, join_lines, left_effect, lines_with_cursor, newline_effect,
    pieces_acc, right_effect, split_pieces, up_effect, ContentType, EditorView,
};

verus! {

/// The text before the cursor.
pub open spec fn text_before(e: EditorView) -> Seq<char> {
    join_lines(e.lines.take(e.row).push(e.lines[e.row].take(e.col)))
}

/// The text after the cursor.
pub open spec fn text_after(e: EditorView) -> Seq<char> {
    join_lines(seq![e.lines[e.row].skip(e.col)] + e.lines.skip(e.row + 1))
}

proof fn lemma_join_push(a: Seq<Seq<char>>, z: Seq<char>)
    ensures
        join_lines(a.push(z)) == if a.len() == 0 {
            z
        } else {
            join_lines(a) + seq!['\n'] + z
        },
{
    assert(a.push(z).drop_last() =~= a);
}

/// Joining two non-empty lists of lines puts one newline between them.
proof fn lemma_join_concat(a: Seq<Seq<char>>, b: Seq<Seq<char>>)
    requires
        a.len() > 0,
        b.len() > 0,
    ensures
        join_lines(a + b) == join_lines(a) + seq!['\n'] + join_lines(b),
    decreases b.len(),
{
    if b.len() == 1 {
        assert(a + b =~= a.push(b[0]));
        lemma_join_push(a, b[0]);
    } else {
        lemma_join_concat(a, b.drop_last());
        assert(a + b =~= (a + b.drop_last()).push(b.last()));
        lemma_join_push(a + b.drop_last(), b.last());
        lemma_join_push(b.drop_last(), b.last());
        assert(b.drop_last().push(b.last()) =~= b);
    }
}

/// Gluing the last line of one list to the first line of the next.
proof fn lemma_join_glue(a: Seq<Seq<char>>, x: Seq<char>, y: Seq<char>, b: Seq<Seq<char>>)
    ensures
        join_lines(a.push(x)) + join_lines(seq![y] + b) == join_lines(a + seq![x + y] + b),
{
    lemma_join_push(a, x);
    lemma_join_push(a, x + y);
    assert(a + seq![x + y] =~= a.push(x + y));
    if b.len() == 0 {
        assert(seq![y] + b =~= seq![y]);
        assert(a + seq![x + y] + b =~= a.push(x + y));
        if a.len() == 0 {
        } else {
            assert(join_lines(a) + seq!['\n'] + x + y =~= join_lines(a) + seq!['\n'] + (x + y));
        }
    } else {
        lemma_join_concat(seq![y], b);
        lemma_join_concat(a.push(x + y), b);
        assert(a + seq![x + y] + b =~= a.push(x + y) + b);
        if a.len() == 0 {
        } else {
            assert(join_lines(a) + seq!['\n'] + x + (y + seq!['\n'] + join_lines(b)) =~= join_lines(
                a,
            ) + seq!['\n'] + (x + y) + seq!['\n'] + join_lines(b));
        }
    }
}

/// Law: the whole text is the text before the cursor followed by the text after it.
pub proof fn law_content_split(e: EditorView)
    requires
        editor_wf(e),
    ensures
        join_lines(e.lines) == text_before(e) + text_after(e),
{
    let line = e.lines[e.row];
    lemma_join_glue(e.lines.take(e.row), line.take(e.col), line.skip(e.col), e.lines.skip(e.row + 1));
    assert(line.take(e.col) + line.skip(e.col) =~= line);
    assert(e.lines.take(e.row) + seq![line] + e.lines.skip(e.row + 1) =~= e.lines);
}

/// Law: putting `s` into the cursor's line puts it at the cursor of the text
/// and moves the cursor past it.
pub proof fn law_insert_in_line(e: EditorView, s: Seq<char>)
    requires
        editor_wf(e),
    ensures
        editor_wf(insert_in_line(e, s)),
        text_before(insert_in_line(e, s)) == text_before(e) + s,
        text_after(insert_in_line(e, s)) == text_after(e),
{
    let f = insert_in_line(e, s);
    let line = e.lines[e.row];
    let nl = line.take(e.col) + s + line.skip(e.col);
    assert(f.lines[f.row] == nl);
    assert(nl.take(f.col) =~= line.take(e.col) + s);
    assert(nl.skip(f.col) =~= line.skip(e.col));
    assert(f.lines.take(f.row) =~= e.lines.take(e.row));
    assert(f.lines.skip(f.row + 1) =~= e.lines.skip(e.row + 1));
    lemma_join_push(e.lines.take(e.row), line.take(e.col) + s);
    lemma_join_push(e.lines.take(e.row), line.take(e.col));
    if e.row > 0 {
        assert(join_lines(e.lines.take(e.row)) + seq!['\n'] + (line.take(e.col) + s) =~= join_lines(
            e.lines.take(e.row),
        ) + seq!['\n'] + line.take(e.col) + s);
    }
}

/// Splitting a text at its newlines and joining the pieces gives it back.
pub proof fn lemma_join_split(s: Seq<char>)
    ensures
        join_lines(split_pieces(s)) == s,
{
    lemma_join_pieces_acc(s);
}

proof fn lemma_join_pieces_acc(s: Seq<char>)
    ensures
        ({
            let (d, c) = pieces_acc(s);
            join_lines(d.push(c)) == s
        }),
    decreases s.len(),
{
    if s.len() > 0 {
        lemma_join_pieces_acc(s.drop_last());
        let (d, c) = pieces_acc(s.drop_last());
        assert(s.drop_last().push(s.last()) =~= s);
        if s.last() == '\n' {
            lemma_join_push(d.push(c), Seq::<char>::empty());
            assert(join_lines(d.push(c)) + seq!['\n'] + Seq::<char>::empty() =~= s);
        } else {
            lemma_join_push(d, c);
            lemma_join_push(d, c.push(s.last()));
            if d.len() == 0 {
                assert(c.push(s.last()) =~= s);
            } else {
                assert(join_lines(d) + seq!['\n'] + c.push(s.last()) =~= (join_lines(d) + seq![
                    '\n',
                ] + c).push(s.last()));
            }
        }
    }
}

/// Law: inserting a text puts it at the cursor and moves the cursor past it,
/// whatever newlines it holds.
pub proof fn law_insert_text(e: EditorView, s: Seq<char>)
    requires
        editor_wf(e),
    ensures
        editor_wf(insert_text(e, s)),
        text_before(insert_text(e, s)) == text_before(e) + s,
        text_after(insert_text(e, s)) == text_after(e),
{
    let p = split_pieces(s);
    let n = p.len();
    if s.len() == 0 {
        assert(text_before(e) + s =~= text_before(e));
    } else if n == 1 {
        lemma_join_split(s);
        assert(join_lines(p) == p[0]);
        law_insert_in_line(e, s);
    } else {
        lemma_join_split(s);
        let f = insert_text(e, s);
        let line = e.lines[e.row];
        let before = line.take(e.col);
        let after = line.skip(e.col);
        let head = e.lines.take(e.row) + seq![before + p[0]] + p.subrange(1, n - 1);
        assert(f.lines =~= head + seq![p[n - 1] + after] + e.lines.skip(e.row + 1));
        assert(f.row == head.len());
        assert(f.lines.take(f.row) =~= head);
        assert(f.lines[f.row] == p[n - 1] + after);
        assert((p[n - 1] + after).take(f.col) =~= p[n - 1]);
        assert((p[n - 1] + after).skip(f.col) =~= after);
        assert(f.lines.skip(f.row + 1) =~= e.lines.skip(e.row + 1));
        assert(editor_wf(f));
        // before-text: join(take(row).push(before)) + join(p)
        lemma_join_glue(e.lines.take(e.row), before, p[0], p.skip(1));
        assert(seq![p[0]] + p.skip(1) =~= p);
        assert(head.push(p[n - 1]) =~= e.lines.take(e.row) + seq![before + p[0]] + p.skip(1));
    }
}

/// Law: backspace removes the character before the cursor when there is
/// one, and reports whether there was.
pub proof fn law_backspace(e: EditorView)
    requires
        editor_wf(e),
    ensures
        editor_wf(backspace_effect(e).0),
        backspace_effect(e).1 == (text_before(e).len() > 0),
        text_before(backspace_effect(e).0) == if text_before(e).len() > 0 {
            text_before(e).drop_last()
        } else {
            text_before(e)
        },
        text_after(backspace_effect(e).0) == text_after(e),
{
    let (f, r) = backspace_effect(e);
    let line = e.lines[e.row];
    lemma_join_push(e.lines.take(e.row), line.take(e.col));
    if e.col > 0 {
        let nl = line.take(e.col - 1) + line.skip(e.col);
        assert(f.lines[f.row] == nl);
        assert(nl.take(f.col) =~= line.take(e.col - 1));
        assert(nl.skip(f.col) =~= line.skip(e.col));
        assert(f.lines.take(f.row) =~= e.lines.take(e.row));
        assert(f.lines.skip(f.row + 1) =~= e.lines.skip(e.row + 1));
        lemma_join_push(e.lines.take(e.row), line.take(e.col - 1));
        assert(line.take(e.col) =~= line.take(e.col - 1).push(line[e.col - 1]));
        if e.row > 0 {
            assert(join_lines(e.lines.take(e.row)) + seq!['\n'] + line.take(e.col) =~= (join_lines(
                e.lines.take(e.row),
            ) + seq!['\n'] + line.take(e.col - 1)).push(line[e.col - 1]));
        }
    } else if e.row > 0 {
        let prev = e.lines[e.row - 1];
        assert(line.take(0) =~= Seq::<char>::empty());
        assert(f.lines[f.row] == prev + line);
        assert((prev + line).take(f.col) =~= prev);
        assert((prev + line).skip(f.col) =~= line);
        assert(line.skip(0) =~= line);
        assert(f.lines.take(f.row) =~= e.lines.take(e.row - 1));
        assert(f.lines.skip(f.row + 1) =~= e.lines.skip(e.row + 1));
        assert(e.lines.take(e.row) =~= e.lines.take(e.row - 1).push(prev));
        lemma_join_push(e.lines.take(e.row - 1), prev);
        assert(text_before(e) =~= join_lines(e.lines.take(e.row)) + seq!['\n']);
    } else {
        assert(e.lines.take(0) =~= Seq::<Seq<char>>::empty());
        assert(line.take(0) =~= Seq::<char>::empty());
    }
}

/// Law: moving left moves the last character before the cursor to the
/// front of the text after it; the text is unchanged.
pub proof fn law_move_left(e: EditorView)
    requires
        editor_wf(e),
    ensures
        editor_wf(left_effect(e).0),
        left_effect(e).1 == (text_before(e).len() > 0),
        text_before(left_effect(e).0) + text_after(left_effect(e).0) == text_before(e) + text_after(e),
        left_effect(e).1 ==> text_before(left_effect(e).0) == text_before(e).drop_last(),
{
    let (f, r) = left_effect(e);
    law_content_split(e);
    law_backspace(e);
    if r {
        law_content_split(f);
        let (g, _) = backspace_effect(e);
        assert(f.lines.take(f.row) == g.lines.take(g.row)) by {
            if e.col > 0 {
                assert(g.lines.take(g.row) =~= e.lines.take(e.row));
            } else {
                assert(g.lines.take(g.row) =~= e.lines.take(e.row - 1));
                assert(f.lines.take(f.row) =~= e.lines.take(e.row - 1));
            }
        }
        assert(f.lines[f.row].take(f.col) == g.lines[g.row].take(g.col)) by {
            if e.col > 0 {
                assert(g.lines[g.row].take(g.col) =~= e.lines[e.row].take(e.col - 1));
            } else {
                assert(g.lines[g.row].take(g.col) =~= e.lines[e.row - 1]);
                assert(f.lines[f.row].take(f.col) =~= e.lines[e.row - 1]);
            }
        }
    } else {
        assert(e.lines.take(0) =~= Seq::<Seq<char>>::empty());
    }
}

/// Law: splitting the line at the cursor puts a newline at the cursor of the text.
pub proof fn law_newline(e: EditorView)
    requires
        editor_wf(e),
    ensures
        editor_wf(newline_effect(e)),
        text_before(newline_effect(e)) == text_before(e) + seq!['\n'],
        text_after(newline_effect(e)) == text_after(e),
{
    let f = newline_effect(e);
    let line = e.lines[e.row];
    assert(f.lines.take(f.row) =~= e.lines.take(e.row).push(line.take(e.col)));
    assert(f.lines[f.row] == line.skip(e.col));
    assert(line.skip(e.col).take(0) =~= Seq::<char>::empty());
    assert(line.skip(e.col).skip(0) =~= line.skip(e.col));
    assert(f.lines.skip(f.row + 1) =~= e.lines.skip(e.row + 1));
    lemma_join_push(e.lines.take(e.row).push(line.take(e.col)), Seq::<char>::empty());
    assert(text_before(e) + seq!['\n'] =~= join_lines(e.lines.take(e.row).push(line.take(e.col)))
        + seq!['\n'] + Seq::<char>::empty());
}


proof fn lemma_join_prepend(z: Seq<char>, b: Seq<Seq<char>>)
    ensures
        join_lines(seq![z] + b) == if b.len() == 0 {
            z
        } else {
            z + seq!['\n'] + join_lines(b)
        },
{
    if b.len() == 0 {
        assert(seq![z] + b =~= seq![z]);
    } else {
        lemma_join_concat(seq![z], b);
    }
}

/// Law: delete removes the character after the cursor when there is one,
/// and reports whether there was.
pub proof fn law_delete(e: EditorView)
    requires
        editor_wf(e),
    ensures
        editor_wf(delete_effect(e).0),
        delete_effect(e).1 == (text_after(e).len() > 0),
        text_after(delete_effect(e).0) == if text_after(e).len() > 0 {
            text_after(e).drop_first()
        } else {
            text_after(e)
        },
        text_before(delete_effect(e).0) == text_before(e),
{
    let (f, r) = delete_effect(e);
    let line = e.lines[e.row];
    lemma_join_prepend(line.skip(e.col), e.lines.skip(e.row + 1));
    if e.col < line.len() {
        let nl = line.take(e.col) + line.skip(e.col + 1);
        assert(f.lines[f.row] == nl);
        assert(nl.take(f.col) =~= line.take(e.col));
        assert(nl.skip(f.col) =~= line.skip(e.col + 1));
        assert(f.lines.take(f.row) =~= e.lines.take(e.row));
        assert(f.lines.skip(f.row + 1) =~= e.lines.skip(e.row + 1));
        lemma_join_prepend(line.skip(e.col + 1), e.lines.skip(e.row + 1));
        assert(line.skip(e.col) =~= seq![line[e.col]] + line.skip(e.col + 1));
        if e.row + 1 < e.lines.len() {
            assert(line.skip(e.col) + seq!['\n'] + join_lines(e.lines.skip(e.row + 1)) =~= seq![
                line[e.col],
            ] + (line.skip(e.col + 1) + seq!['\n'] + join_lines(e.lines.skip(e.row + 1))));
        }
    } else if e.row + 1 < e.lines.len() {
        let next = e.lines[e.row + 1];
        assert(line.skip(e.col) =~= Seq::<char>::empty());
        assert(f.lines[f.row] == line + next);
        assert((line + next).take(f.col) =~= line.take(e.col));
        assert((line + next).skip(f.col) =~= next);
        assert(f.lines.take(f.row) =~= e.lines.take(e.row));
        assert(f.lines.skip(f.row + 1) =~= e.lines.skip(e.row + 2));
        assert(e.lines.skip(e.row + 1) =~= seq![next] + e.lines.skip(e.row + 2));
        lemma_join_prepend(next, e.lines.skip(e.row + 2));
        assert(text_after(e) =~= seq!['\n'] + join_lines(e.lines.skip(e.row + 1)));
    } else {
        assert(line.skip(e.col) =~= Seq::<char>::empty());
        assert(e.lines.skip(e.row + 1) =~= Seq::<Seq<char>>::empty());
    }
}

/// Law: moving right moves the first character after the cursor to the end
/// of the text before it; the text is unchanged.
pub proof fn law_move_right(e: EditorView)
    requires
        editor_wf(e),
    ensures
        editor_wf(right_effect(e).0),
        right_effect(e).1 == (text_after(e).len() > 0),
        text_before(right_effect(e).0) + text_after(right_effect(e).0) == text_before(e) + text_after(e),
        right_effect(e).1 ==> text_after(right_effect(e).0) == text_after(e).drop_first(),
{
    let (f, r) = right_effect(e);
    law_content_split(e);
    law_delete(e);
    if r {
        law_content_split(f);
        let (g, _) = delete_effect(e);
        let line = e.lines[e.row];
        if e.col < line.len() {
            assert(f.lines.skip(f.row + 1) =~= g.lines.skip(g.row + 1));
            assert(f.lines[f.row].skip(f.col) =~= g.lines[g.row].skip(g.col));
        } else {
            assert(f.lines.skip(f.row + 1) =~= e.lines.skip(e.row + 2));
            assert(g.lines.skip(g.row + 1) =~= e.lines.skip(e.row + 2));
            assert(f.lines[f.row].skip(f.col) =~= e.lines[e.row + 1]);
            assert(g.lines[g.row].skip(g.col) =~= e.lines[e.row + 1]);
        }
    } else {
        let line = e.lines[e.row];
        assert(line.skip(e.col) =~= Seq::<char>::empty());
        assert(e.lines.skip(e.row + 1) =~= Seq::<Seq<char>>::empty());
    }
}


/// The number of characters in `ls` joined, counting one newline after each line.
pub open spec fn rows_len(ls: Seq<Seq<char>>) -> int
    decreases ls.len(),
{
    if ls.len() == 0 {
        0
    } else {
        rows_len(ls.drop_last()) + ls.last().len() + 1
    }
}

/// The cursor's offset in the text: each line above it with its newline,
/// then its column.
pub open spec fn cursor_offset(e: EditorView) -> int {
    rows_len(e.lines.take(e.row)) + e.col
}

/// The number of newlines in `s`.
pub open spec fn newline_count(s: Seq<char>) -> nat
    decreases s.len(),
{
    if s.len() == 0 {
        0
    } else {
        newline_count(s.drop_last()) + if s.last() == '\n' {
            1nat
        } else {
            0nat
        }
    }
}

/// Whether no line holds a newline.
pub open spec fn lines_without_newline(ls: Seq<Seq<char>>) -> bool {
    forall|i: int| 0 <= i < ls.len() ==> !(#[trigger] ls[i]).contains('\n')
}

proof fn lemma_join_push_len(a: Seq<Seq<char>>, x: Seq<char>)
    ensures
        join_lines(a.push(x)).len() == rows_len(a) + x.len(),
    decreases a.len(),
{
    lemma_join_push(a, x);
    if a.len() > 0 {
        lemma_join_push_len(a.drop_last(), a.last());
        assert(a.drop_last().push(a.last()) =~= a);
    }
}

/// The text before the cursor is as long as the cursor's offset.
proof fn lemma_text_before_len(e: EditorView)
    requires
        editor_wf(e),
    ensures
        text_before(e).len() == cursor_offset(e),
{
    lemma_join_push_len(e.lines.take(e.row), e.lines[e.row].take(e.col));
}

/// The text of an editor, cut at the cursor's offset.
proof fn lemma_cut_at_cursor(e: EditorView)
    requires
        editor_wf(e),
    ensures
        join_lines(e.lines).take(cursor_offset(e)) == text_before(e),
        join_lines(e.lines).skip(cursor_offset(e)) == text_after(e),
        join_lines(e.lines).len() == cursor_offset(e) + text_after(e).len(),
        0 <= cursor_offset(e),
{
    law_content_split(e);
    lemma_text_before_len(e);
    assert((text_before(e) + text_after(e)).take(cursor_offset(e)) =~= text_before(e));
    assert((text_before(e) + text_after(e)).skip(cursor_offset(e)) =~= text_after(e));
}

/// Law: the text with the cursor marker is the text with `'█'` put in at
/// the cursor's offset.
pub proof fn law_marker_at_cursor_offset(e: EditorView)
    requires
        editor_wf(e),
    ensures
        ({
            let t = join_lines(e.lines);
            let k = cursor_offset(e);
            join_lines(lines_with_cursor(e)) == t.take(k) + seq!['█'] + t.skip(k)
        }),
{
    let f = insert_in_line(e, seq!['█']);
    assert(f.lines == lines_with_cursor(e));
    law_insert_in_line(e, seq!['█']);
    law_content_split(f);
    lemma_cut_at_cursor(e);
}

/// Law: inserting a text puts it into the text at the cursor's offset and
/// moves the cursor's offset past it; the text counts as changed unless
/// nothing was inserted.
pub proof fn law_insert_at_cursor_offset(e: EditorView, s: Seq<char>)
    requires
        editor_wf(e),
    ensures
        ({
            let f = insert_text(e, s);
            let t = join_lines(e.lines);
            let k = cursor_offset(e);
            &&& editor_wf(f)
            &&& join_lines(f.lines) == t.take(k) + s + t.skip(k)
            &&& cursor_offset(f) == k + s.len()
            &&& f.dirty == (e.dirty || s.len() > 0)
        }),
{
    let f = insert_text(e, s);
    law_insert_text(e, s);
    law_content_split(f);
    lemma_cut_at_cursor(e);
    lemma_text_before_len(f);
    lemma_text_before_len(e);
    assert(editor_wf(f));
    assert(cursor_offset(f) == cursor_offset(e) + s.len());
    assert(join_lines(f.lines) == text_before(e) + s + text_after(e));
    assert(f.dirty == (e.dirty || s.len() > 0));
}

proof fn lemma_pieces_acc_newlines(s: Seq<char>)
    ensures
        pieces_acc(s).0.len() == newline_count(s),
        lines_without_newline(pieces_acc(s).0),
        !pieces_acc(s).1.contains('\n'),
    decreases s.len(),
{
    if s.len() > 0 {
        lemma_pieces_acc_newlines(s.drop_last());
        let (d, c) = pieces_acc(s.drop_last());
        if s.last() == '\n' {
            assert(!Seq::<char>::empty().contains('\n'));
            assert forall|i: int| 0 <= i < d.push(c).len() implies !(#[trigger] d.push(c)[i]).contains('\n') by {
                if i < d.len() {
                    assert(d.push(c)[i] == d[i]);
                }
            }
        } else {
            assert forall|j: int| 0 <= j < c.push(s.last()).len() implies c.push(s.last())[j] != '\n' by {
                if j < c.len() {
                    assert(c.push(s.last())[j] == c[j]);
                }
            }
        }
    }
}

/// `a + b` holds a newline only when `a` or `b` does.
proof fn lemma_concat_no_newline(a: Seq<char>, b: Seq<char>)
    requires
        !a.contains('\n'),
        !b.contains('\n'),
    ensures
        !(a + b).contains('\n'),
{
    assert forall|j: int| 0 <= j < (a + b).len() implies (a + b)[j] != '\n' by {
        if j < a.len() {
            assert((a + b)[j] == a[j]);
        } else {
            assert((a + b)[j] == b[j - a.len()]);
        }
    }
}

/// A part of a line holds no newline when the line holds none.
proof fn lemma_part_no_newline(a: Seq<char>, i: int, j: int)
    requires
        !a.contains('\n'),
        0 <= i <= j <= a.len(),
    ensures
        !a.subrange(i, j).contains('\n'),
{
    assert forall|k: int| 0 <= k < j - i implies a.subrange(i, j)[k] != '\n' by {
        assert(a.subrange(i, j)[k] == a[i + k]);
    }
}

/// Law: inserting a text adds one line per newline in it, and lines never
/// hold a newline.
pub proof fn law_insert_line_count(e: EditorView, s: Seq<char>)
    requires
        editor_wf(e),
        lines_without_newline(e.lines),
    ensures
        insert_text(e, s).lines.len() == e.lines.len() + newline_count(s),
        lines_without_newline(insert_text(e, s).lines),
{
    let f = insert_text(e, s);
    let p = split_pieces(s);
    let n = p.len();
    let line = e.lines[e.row];
    lemma_pieces_acc_newlines(s);
    assert(lines_without_newline(p)) by {
        assert forall|i: int| 0 <= i < p.len() implies !(#[trigger] p[i]).contains('\n') by {
            if i < p.len() - 1 {
                assert(p[i] == pieces_acc(s).0[i]);
            }
        }
    }
    assert(!line.contains('\n'));
    assert(line.take(e.col) == line.subrange(0, e.col));
    assert(line.skip(e.col) == line.subrange(e.col, line.len() as int));
    lemma_part_no_newline(line, 0, e.col);
    lemma_part_no_newline(line, e.col, line.len() as int);
    if s.len() == 0 {
        assert(newline_count(s) == 0);
    } else if n == 1 {
        lemma_join_split(s);
        assert(s == p[0]);
        lemma_concat_no_newline(line.take(e.col), s);
        lemma_concat_no_newline(line.take(e.col) + s, line.skip(e.col));
        assert forall|i: int| 0 <= i < f.lines.len() implies !(#[trigger] f.lines[i]).contains('\n') by {
            if i != e.row {
                assert(f.lines[i] == e.lines[i]);
            }
        }
    } else {
        lemma_concat_no_newline(line.take(e.col), p[0]);
        lemma_concat_no_newline(p[n - 1], line.skip(e.col));
        let a = e.lines.take(e.row);
        let m = p.subrange(1, n - 1);
        let z = e.lines.skip(e.row + 1);
        assert(f.lines == a + seq![line.take(e.col) + p[0]] + m + seq![p[n - 1] + line.skip(e.col)] + z);
        assert forall|i: int| 0 <= i < f.lines.len() implies !(#[trigger] f.lines[i]).contains('\n') by {
            if i < e.row {
                assert(f.lines[i] == e.lines[i]);
            } else if i == e.row {
            } else if i < e.row + n - 1 {
                assert(f.lines[i] == p[i - e.row]);
            } else if i == e.row + n - 1 {
            } else {
                assert(f.lines[i] == e.lines[i - n + 1]);
            }
        }
    }
}

/// Law: backspace right after typing a character gives back the lines and
/// the cursor from before.
pub proof fn law_backspace_undoes_char(e: EditorView, c: char)
    requires
        editor_wf(e),
    ensures
        ({
            let (f, r) = backspace_effect(insert_in_line(e, seq![c]));
            r && f.lines == e.lines && f.row == e.row && f.col == e.col
        }),
{
    let g = insert_in_line(e, seq![c]);
    let (f, r) = backspace_effect(g);
    let line = e.lines[e.row];
    let nl = line.take(e.col) + seq![c] + line.skip(e.col);
    assert(nl.take(e.col) + nl.skip(e.col + 1) =~= line);
    assert(f.lines =~= e.lines);
}

/// Law: backspace right after splitting a line gives back the lines and the
/// cursor from before.
pub proof fn law_backspace_undoes_newline(e: EditorView)
    requires
        editor_wf(e),
    ensures
        ({
            let (f, r) = backspace_effect(newline_effect(e));
            r && f.lines == e.lines && f.row == e.row && f.col == e.col
        }),
{
    let g = newline_effect(e);
    let line = e.lines[e.row];
    assert(g.lines[g.row] == line.skip(e.col));
    assert(g.lines[g.row - 1] == line.take(e.col));
    let (f, r) = backspace_effect(g);
    assert(line.take(e.col) + line.skip(e.col) =~= line);
    assert(f.lines =~= e.lines);
}

/// Law: delete removes the character at the cursor's offset, when the text
/// goes on past it, and leaves the cursor where it is; otherwise nothing
/// changes.
pub proof fn law_delete_at_cursor_offset(e: EditorView)
    requires
        editor_wf(e),
    ensures
        ({
            let (f, b) = delete_effect(e);
            let t = join_lines(e.lines);
            let k = cursor_offset(e);
            &&& b == (k < t.len())
            &&& f.row == e.row && f.col == e.col
            &&& b ==> join_lines(f.lines) == t.take(k) + t.skip(k + 1) && f.dirty
            &&& !b ==> f == e
        }),
{
    let (f, b) = delete_effect(e);
    law_delete(e);
    lemma_cut_at_cursor(e);
    if b {
        law_content_split(f);
        let t = join_lines(e.lines);
        let k = cursor_offset(e);
        assert(text_after(e).len() > 0);
        assert(k + 1 <= t.len());
        assert(t.skip(k) == text_after(e));
        assert(t.skip(k + 1) =~= t.skip(k).drop_first());
    }
}

/// Law: splitting the line puts `'\n'` into the text at the cursor's offset,
/// adds one line, and puts the cursor at the start of the new line.
pub proof fn law_newline_at_cursor_offset(e: EditorView)
    requires
        editor_wf(e),
    ensures
        ({
            let f = newline_effect(e);
            let t = join_lines(e.lines);
            let k = cursor_offset(e);
            &&& join_lines(f.lines) == t.take(k) + seq!['\n'] + t.skip(k)
            &&& f.lines.len() == e.lines.len() + 1
            &&& f.row == e.row + 1 && f.col == 0
            &&& f.dirty
        }),
{
    let f = newline_effect(e);
    law_newline(e);
    law_content_split(f);
    lemma_cut_at_cursor(e);
}

/// Law: the dirty flag. A new editor, or one just given its text or marked
/// saved, is clean; typing, splitting, clearing or replacing the text make
/// it dirty; inserting makes it dirty unless nothing is inserted; backspace
/// and delete make it dirty when they delete something and change nothing
/// otherwise; cursor moves keep it.
pub proof fn law_dirty_flag(e: EditorView, s: Seq<char>, c: char, ct: ContentType)
    ensures
        !empty_editor(false, ct).dirty,
        !editor_with(s, false, ct).dirty,
        !(EditorView { dirty: false, ..e }).dirty,
        insert_in_line(e, seq![c]).dirty,
        newline_effect(e).dirty,
        empty_editor(true, ct).dirty,
        editor_with(s, true, ct).dirty,
        insert_text(e, s).dirty == (e.dirty || s.len() > 0),
        backspace_effect(e).1 ==> backspace_effect(e).0.dirty,
        !backspace_effect(e).1 ==> backspace_effect(e).0 == e,
        delete_effect(e).1 ==> delete_effect(e).0.dirty,
        !delete_effect(e).1 ==> delete_effect(e).0 == e,
        left_effect(e).0.dirty == e.dirty,
        right_effect(e).0.dirty == e.dirty,
        up_effect(e).0.dirty == e.dirty,
        down_effect(e).0.dirty == e.dirty,
{
}

/// Law: moving up or down keeps the column when the target line is long
/// enough, and otherwise puts the cursor at the end of that line; the text
/// is unchanged. Going up then down (or down then up) between two lines
/// each at least as long as the column comes back to the same place.
pub proof fn law_vertical_moves_keep_column(e: EditorView)
    requires
        editor_wf(e),
    ensures
        up_effect(e).1 == (e.row > 0),
        down_effect(e).1 == (e.row + 1 < e.lines.len()),
        up_effect(e).0.lines == e.lines && down_effect(e).0.lines == e.lines,
        e.row > 0 ==> up_effect(e).0.row == e.row - 1 && up_effect(e).0.col == if e.col
            <= e.lines[e.row - 1].len() {
            e.col
        } else {
            e.lines[e.row - 1].len() as int
        },
        e.row + 1 < e.lines.len() ==> down_effect(e).0.row == e.row + 1 && down_effect(e).0.col
            == if e.col <= e.lines[e.row + 1].len() {
            e.col
        } else {
            e.lines[e.row + 1].len() as int
        },
        e.row > 0 && e.col <= e.lines[e.row - 1].len() ==> down_effect(up_effect(e).0).0 == e,
        e.row + 1 < e.lines.len() && e.col <= e.lines[e.row + 1].len() ==> up_effect(
            down_effect(e).0,
        ).0 == e,
        editor_wf(up_effect(e).0) && editor_wf(down_effect(e).0),
{
}

} // verus!
