//! What holds of the buffer and the window whatever they are given.
use crate::document::{
    find_backward, find_forward, joins_next, lemma_line_end, line_end, lines_from, lines_of,
    split_line, text_of, with_deleted, with_inserted, Document,
};
use crate::cluster::{
    excised, joined, lemma_first_among, lemma_joined_adjacent, lemma_joined_all, lemma_joined_one,
    lemma_last_among, spliced,
};
use crate::editor::{Position, SearchDir};
use crate::event::{Event, Key, KeyEvent};
use crate::grapheme::grapheme_clusters;
use crate::model::{clamped, line_len, moved, scrolled_axis, stepped, State};
use crate::row::{cluster_count, find_in, occurs_at, span, with_char, without_cluster, Row};
use vstd::prelude::*;

verus! {

/// `ch`, put into `text` in front of cluster `at`, is cluster `at` of the new
/// text all by itself, and the clusters before it hold what they held.
///
/// This fails where `ch` joins a neighbour: a combining mark typed after a
/// letter becomes part of the letter's cluster.
pub open spec fn stands_alone(text: Seq<char>, at: int, ch: char) -> bool {
    let typed = with_char(text, at, ch);
    &&& 0 <= at < cluster_count(typed)
    &&& grapheme_clusters(typed)[at] == seq![ch]
    &&& span(typed, 0, at) == span(text, 0, at)
}

/// Where `run` was put in front of cluster `at` of `before` and makes up
/// cluster `at` of `after`, behind clusters that hold what they held, taking
/// that cluster out of `after` gives the text of `before`.
proof fn lemma_excise_what_was_spliced(
    before: Seq<Seq<char>>,
    after: Seq<Seq<char>>,
    at: int,
    run: Seq<char>,
)
    requires
        0 <= at <= before.len(),
        at < after.len(),
        after.flatten() == spliced(before, at, run),
        after[at] == run,
        joined(after, 0, at) == joined(before, 0, at),
    ensures
        excised(after, at, at + 1) == before.flatten(),
{
    let n = before.len() as int;
    let m = after.len() as int;
    let head = joined(before, 0, at);
    let tail = joined(before, at, n);
    lemma_joined_adjacent(before, 0, at, n);
    lemma_joined_all(before);
    lemma_joined_adjacent(after, 0, at, at + 1);
    lemma_joined_adjacent(after, 0, at + 1, m);
    lemma_joined_all(after);
    lemma_joined_one(after, at);
    let rest = joined(after, at + 1, m);
    let front = head + run;
    assert(after.flatten() == front + rest);
    assert(rest =~= (front + rest).subrange(front.len() as int, (front + rest).len() as int));
    assert(tail =~= (front + tail).subrange(front.len() as int, (front + tail).len() as int));
}

/// Putting a character at the end of a text is putting it in front of the
/// cluster after the last.
proof fn lemma_with_char_is_spliced(text: Seq<char>, at: int, ch: char)
    requires
        grapheme_clusters(text).flatten() == text,
        0 <= at <= cluster_count(text),
    ensures
        with_char(text, at, ch) == spliced(grapheme_clusters(text), at, seq![ch]),
{
    let parts = grapheme_clusters(text);
    lemma_joined_all(parts);
    assert(text.push(ch) =~= text + seq![ch] + Seq::<char>::empty());
}

/// An insertion cuts no cluster and loses nothing: the new text is the old
/// text with the character standing between two of its clusters, or before
/// the first, or after the last.
pub proof fn lemma_insert_keeps_clusters(row: Row, at: int, ch: char)
    requires
        row.wf(),
        0 <= at,
    ensures
        ({
            let k = if at < cluster_count(row@) {
                at
            } else {
                cluster_count(row@) as int
            };
            &&& with_char(row@, at, ch) == span(row@, 0, k) + seq![ch] + span(
                row@,
                k,
                cluster_count(row@) as int,
            )
            &&& span(row@, 0, k) + span(row@, k, cluster_count(row@) as int) == row@
        }),
{
    row.lemma_wf();
    let parts = grapheme_clusters(row@);
    let n = parts.len() as int;
    let k = if at < n {
        at
    } else {
        n
    };
    lemma_joined_adjacent(parts, 0, k, n);
    lemma_joined_all(parts);
    assert(row@.push(ch) =~= row@ + seq![ch] + Seq::<char>::empty());
}

/// A deletion cuts no cluster and takes exactly one: the old text is the new
/// text with the whole of cluster `at` put back where it was.
pub proof fn lemma_delete_takes_one_cluster(row: Row, at: int)
    requires
        row.wf(),
        0 <= at < cluster_count(row@),
    ensures
        without_cluster(row@, at) == span(row@, 0, at) + span(
            row@,
            at + 1,
            cluster_count(row@) as int,
        ),
        row@ == span(row@, 0, at) + grapheme_clusters(row@)[at] + span(
            row@,
            at + 1,
            cluster_count(row@) as int,
        ),
        grapheme_clusters(row@)[at].len() > 0,
{
    row.lemma_wf();
    let parts = grapheme_clusters(row@);
    let n = parts.len() as int;
    lemma_joined_adjacent(parts, 0, at, at + 1);
    lemma_joined_adjacent(parts, 0, at + 1, n);
    lemma_joined_all(parts);
    lemma_joined_one(parts, at);
}

/// Typing a character into a row and then deleting at the same offset gives
/// the row its old text back, for every offset in the row or at its end and
/// every character that stands alone there.
pub proof fn lemma_insert_then_delete(before: Row, after: Row, at: int, ch: char)
    requires
        before.wf(),
        after.wf(),
        0 <= at <= cluster_count(before@),
        after@ == with_char(before@, at, ch),
        stands_alone(before@, at, ch),
    ensures
        without_cluster(after@, at) == before@,
{
    before.lemma_wf();
    after.lemma_wf();
    lemma_with_char_is_spliced(before@, at, ch);
    lemma_excise_what_was_spliced(
        grapheme_clusters(before@),
        grapheme_clusters(after@),
        at,
        seq![ch],
    );
}

/// Typing a character that is no newline and then deleting at the same place
/// gives the document its old lines back, for every place on a line or at its
/// end and every character that stands alone there.
pub proof fn lemma_type_then_delete(before: Document, after: Document, x: int, y: int, ch: char)
    requires
        before.wf(),
        after.wf(),
        ch != '\n',
        0 <= y < before@.len(),
        0 <= x <= cluster_count(before@[y]),
        after@ == with_inserted(before@, x, y, ch),
        stands_alone(before@[y], x, ch),
    ensures
        with_deleted(after@, x, y) == before@,
{
    before.lemma_wf();
    after.lemma_wf();
    let line = before@[y];
    let typed = with_char(line, x, ch);
    assert(after@[y] == typed);
    lemma_with_char_is_spliced(line, x, ch);
    lemma_excise_what_was_spliced(grapheme_clusters(line), grapheme_clusters(typed), x, seq![ch]);
    assert(without_cluster(typed, x) == line);
    assert(!joins_next(after@, x, y));
    assert(with_deleted(after@, x, y) =~= before@);
}

/// Splitting a line in front of any of its clusters, or at its end, and then
/// deleting at the end of the first of the two lines gives the document its
/// old lines back.
pub proof fn lemma_split_then_merge(before: Document, x: int, y: int)
    requires
        before.wf(),
        0 <= y < before@.len(),
        0 <= x <= cluster_count(before@[y]),
    ensures
        ({
            let split = split_line(before@, x, y);
            with_deleted(split, cluster_count(split[y]) as int, y) == before@
        }),
        with_inserted(before@, x, y, '\n') == split_line(before@, x, y),
{
    before.lemma_wf();
    let line = before@[y];
    let parts = grapheme_clusters(line);
    let n = parts.len() as int;
    lemma_joined_adjacent(parts, 0, x, n);
    lemma_joined_all(parts);
    let split = split_line(before@, x, y);
    assert(split[y] + split[y + 1] =~= line);
    assert(joins_next(split, cluster_count(split[y]) as int, y));
    assert(with_deleted(split, cluster_count(split[y]) as int, y) =~= before@);
}

/// Deleting at the end of a line that is not the last puts exactly the next
/// line's text behind this line's text, takes exactly one line away, and
/// leaves every other line as it was.
pub proof fn lemma_delete_at_line_end(lines: Seq<Seq<char>>, y: int)
    requires
        0 <= y,
        y + 1 < lines.len(),
    ensures
        ({
            let joined = with_deleted(lines, cluster_count(lines[y]) as int, y);
            &&& joined.len() == lines.len() - 1
            &&& joined[y] == lines[y] + lines[y + 1]
            &&& forall|i: int| 0 <= i < y ==> joined[i] == lines[i]
            &&& forall|i: int| y < i < joined.len() ==> joined[i] == lines[i + 1]
        }),
{
}

/// `query` occurs at cluster `x` of line `y`, which a forward search looks
/// through to its end.
pub open spec fn occurs_on(lines: Seq<Seq<char>>, query: Seq<char>, x: int, y: int) -> bool {
    0 <= y < lines.len() && occurs_at(lines[y], query, x, cluster_count(lines[y]) as int)
}

/// `(x1, y1)` comes before `(x2, y2)` in reading order.
pub open spec fn reads_before(x1: int, y1: int, x2: int, y2: int) -> bool {
    y1 < y2 || (y1 == y2 && x1 < x2)
}

/// A forward search of a document never wraps round: it answers with the
/// first occurrence, in reading order, at or after its start, and with
/// nothing only where nothing occurs from its start on.
pub proof fn lemma_find_forward(lines: Seq<Seq<char>>, query: Seq<char>, x: int, y: int)
    requires
        0 <= x,
        0 <= y,
    ensures
        match find_forward(lines, query, x, y) {
            Some((hx, hy)) => {
                &&& occurs_on(lines, query, hx, hy)
                &&& !reads_before(hx, hy, x, y)
                &&& forall|kx: int, ky: int|
                    !reads_before(kx, ky, x, y) && reads_before(kx, ky, hx, hy) ==> !#[trigger] occurs_on(
                        lines,
                        query,
                        kx,
                        ky,
                    )
            },
            None => forall|kx: int, ky: int|
                !reads_before(kx, ky, x, y) ==> !#[trigger] occurs_on(lines, query, kx, ky),
        },
    decreases lines.len() - y,
{
    if y < lines.len() {
        lemma_first_among(grapheme_clusters(lines[y]), query, x);
        if find_in(lines[y], query, x, SearchDir::Forward) is None {
            lemma_find_forward(lines, query, 0, y + 1);
            match find_forward(lines, query, 0, y + 1) {
                Some((hx, hy)) => {
                    assert forall|kx: int, ky: int|
                        !reads_before(kx, ky, x, y) && reads_before(
                            kx,
                            ky,
                            hx,
                            hy,
                        ) implies !#[trigger] occurs_on(lines, query, kx, ky) by {
                        if ky > y && occurs_on(lines, query, kx, ky) {
                            assert(!reads_before(kx, ky, 0, y + 1));
                        }
                    }
                },
                None => {
                    assert forall|kx: int, ky: int|
                        !reads_before(kx, ky, x, y) implies !#[trigger] occurs_on(
                        lines,
                        query,
                        kx,
                        ky,
                    ) by {
                        if ky > y && occurs_on(lines, query, kx, ky) {
                            assert(!reads_before(kx, ky, 0, y + 1));
                        }
                    }
                },
            }
        }
    }
}

/// `query` occurs at cluster `x` of line `ky` and ends where a backward
/// search from cluster `x` of line `y` may still see it: before `x` on line
/// `y` itself, anywhere on a line above.
pub open spec fn occurs_behind(
    lines: Seq<Seq<char>>,
    query: Seq<char>,
    kx: int,
    ky: int,
    x: int,
    y: int,
) -> bool {
    &&& 0 <= ky <= y < lines.len()
    &&& occurs_at(
        lines[ky],
        query,
        kx,
        if ky == y {
            x
        } else {
            cluster_count(lines[ky]) as int
        },
    )
}

/// A backward search of a document never wraps round: it answers with the
/// last occurrence, in reading order, that ends before its start, and with
/// nothing only where there is none.
pub proof fn lemma_find_backward(lines: Seq<Seq<char>>, query: Seq<char>, x: int, y: int)
    requires
        0 <= y < lines.len(),
    ensures
        match find_backward(lines, query, x, y) {
            Some((hx, hy)) => {
                &&& occurs_behind(lines, query, hx, hy, x, y)
                &&& forall|kx: int, ky: int|
                    reads_before(hx, hy, kx, ky) ==> !#[trigger] occurs_behind(
                        lines,
                        query,
                        kx,
                        ky,
                        x,
                        y,
                    )
            },
            None => forall|kx: int, ky: int| !#[trigger] occurs_behind(lines, query, kx, ky, x, y),
        },
    decreases y,
{
    lemma_last_among(grapheme_clusters(lines[y]), query, x, x);
    if find_in(lines[y], query, x, SearchDir::Backward) is None && y > 0 {
        let above = cluster_count(lines[y - 1]) as int;
        lemma_find_backward(lines, query, above, y - 1);
        match find_backward(lines, query, above, y - 1) {
            Some((hx, hy)) => {
                assert(occurs_behind(lines, query, hx, hy, x, y));
                assert forall|kx: int, ky: int| reads_before(hx, hy, kx, ky) implies !#[trigger] occurs_behind(
                    lines,
                    query,
                    kx,
                    ky,
                    x,
                    y,
                ) by {
                    if ky < y && occurs_behind(lines, query, kx, ky, x, y) {
                        assert(occurs_behind(lines, query, kx, ky, above, y - 1));
                    }
                }
            },
            None => {
                assert forall|kx: int, ky: int| !#[trigger] occurs_behind(
                    lines,
                    query,
                    kx,
                    ky,
                    x,
                    y,
                ) by {
                    if ky < y && occurs_behind(lines, query, kx, ky, x, y) {
                        assert(occurs_behind(lines, query, kx, ky, above, y - 1));
                    }
                }
            },
        }
    }
}

/// After the window has followed the cursor on an axis where it shows at
/// least one cell, the cursor is inside it.
pub proof fn lemma_scroll_shows_cursor(cursor: int, offset: int, extent: int)
    requires
        0 <= cursor <= usize::MAX,
        0 <= offset,
        0 < extent,
    ensures
        scrolled_axis(cursor, offset, extent) <= cursor < scrolled_axis(cursor, offset, extent)
            + extent,
{
}

/// The window moves only when the cursor has left it, and then no further
/// than it must: a cursor past the far edge becomes the last cell, a cursor
/// before the near edge the first.
pub proof fn lemma_scroll_moves_least(cursor: int, offset: int, extent: int)
    requires
        0 <= cursor <= usize::MAX,
        0 <= offset,
        0 < extent,
    ensures
        offset <= cursor < offset + extent ==> scrolled_axis(cursor, offset, extent) == offset,
        cursor >= offset + extent ==> scrolled_axis(cursor, offset, extent) + extent - 1 == cursor,
        cursor < offset ==> scrolled_axis(cursor, offset, extent) == cursor,
{
}

/// On an axis where the window shows at least one cell, scrolling twice is
/// scrolling once.
pub proof fn lemma_scroll_settles(cursor: int, offset: int, extent: int)
    requires
        0 <= cursor <= usize::MAX,
        0 <= offset,
        0 < extent,
    ensures
        scrolled_axis(cursor, scrolled_axis(cursor, offset, extent), extent) == scrolled_axis(
            cursor,
            offset,
            extent,
        ),
{
}

/// Once the window has followed the cursor, the cursor is inside it on every
/// axis on which the window shows at least one cell.
pub proof fn lemma_scrolled_state_shows_cursor(state: State)
    requires
        0 <= state.cursor.x <= usize::MAX,
        0 <= state.cursor.y <= usize::MAX,
        0 <= state.offset.x,
        0 <= state.offset.y,
    ensures
        ({
            let after = state.scroll();
            &&& after.cursor == state.cursor
            &&& state.size.width > 0 ==> after.offset.x <= after.cursor.x < after.offset.x
                + state.size.width
            &&& state.size.height > 2 ==> after.offset.y <= after.cursor.y < after.offset.y
                + state.size.height - 2
        }),
{
}

/// Wherever the cursor was and whatever key moved it, it then stands on a
/// line of the text, within that line or at its end; in a text without lines
/// it stands at the origin.
pub proof fn lemma_moved_stays_in_text(
    lines: Seq<Seq<char>>,
    at: Position<int>,
    key: Key,
    height: int,
)
    requires
        0 <= at.x,
        0 <= at.y,
    ensures
        ({
            let to = moved(lines, at, key, height);
            &&& 0 <= to.x <= line_len(lines, to.y)
            &&& 0 <= to.y
            &&& lines.len() > 0 ==> to.y < lines.len()
            &&& lines.len() == 0 ==> to.y == 0
        }),
{
    let raw = stepped(lines, at, key, height);
    assert(0 <= raw.x && 0 <= raw.y);
    assert(moved(lines, at, key, height) == clamped(lines, raw));
}

/// While a question is open no key changes the lines of the document or
/// whether they count as edited.
pub proof fn lemma_prompt_keeps_text(state: State, event: KeyEvent)
    requires
        state.prompt is Some,
    ensures
        state.prompt_key(event).lines == state.lines,
        state.prompt_key(event).dirty == state.dirty,
{
}

/// Escape gives a search up whatever was typed: the question is closed, the
/// lines are as they were, and the cursor is back where it stood when the
/// question was asked.
pub proof fn lemma_escape_restores_cursor(state: State, control: bool)
    requires
        state.prompt is Some,
        state.prompt->0.kind is Search,
    ensures
        ({
            let after = state.prompt_key(KeyEvent { code: Key::Esc, control });
            &&& after.prompt is None
            &&& after.cursor == state.prompt->0.origin
            &&& after.lines == state.lines
            &&& after.dirty == state.dirty
        }),
{
}

/// No event takes the mark of being edited off a document: only a save that
/// went well does.
pub proof fn lemma_only_saving_cleans(state: State, event: Event, ok: bool)
    ensures
        state.dirty ==> state.event(event).dirty,
        state.saved(ok).dirty == (state.dirty && !ok),
        state.saved(ok).lines == state.lines,
{
}

/// Whenever the caller is asked to save, the document has a path to be
/// written to.
pub proof fn lemma_save_has_path(state: State, event: Event)
    requires
        state.event_action(event) is Save,
    ensures
        state.event(event).path is Some,
{
}

/// The end of a line does not depend on what stands before the line.
proof fn lemma_line_end_shift(text: Seq<char>, k: int, from: int)
    requires
        0 <= k <= from <= text.len(),
    ensures
        line_end(text, from) == line_end(text.skip(k), from - k) + k,
    decreases text.len() - from,
{
    if from < text.len() && text[from] != '\n' {
        lemma_line_end_shift(text, k, from + 1);
    }
}

/// The lines of a text from some index on do not depend on what stands
/// before that index.
proof fn lemma_lines_from_shift(text: Seq<char>, k: int, from: int)
    requires
        0 <= k <= from <= text.len(),
    ensures
        lines_from(text, from) == lines_from(text.skip(k), from - k),
    decreases text.len() - from,
{
    if from < text.len() {
        let end = line_end(text, from);
        lemma_line_end(text, from);
        lemma_line_end_shift(text, k, from);
        assert(text.subrange(from, end) =~= text.skip(k).subrange(from - k, end - k));
        if end < text.len() {
            lemma_lines_from_shift(text, k, end + 1);
        }
    }
}

/// Whether `line` can be written to a file and read back as one line: it
/// holds no newline and does not end in a carriage return.
pub open spec fn plain_line(line: Seq<char>) -> bool {
    &&& forall|i: int| 0 <= i < line.len() ==> line[i] != '\n'
    &&& line.len() > 0 ==> line.last() != '\r'
}

/// What is written to a file is read back as the same lines, for lines that
/// hold no newline and do not end in a carriage return.
pub proof fn lemma_open_reads_what_was_saved(lines: Seq<Seq<char>>)
    requires
        forall|i: int| 0 <= i < lines.len() ==> plain_line(#[trigger] lines[i]),
    ensures
        lines_of(text_of(lines)) == lines,
    decreases lines.len(),
{
    let ended = |line: Seq<char>| line.push('\n');
    let text = text_of(lines);
    if lines.len() == 0 {
        assert(lines.map_values(ended) =~= Seq::<Seq<char>>::empty());
        assert(lines_of(text) =~= lines);
    } else {
        let first = lines.first();
        let rest = lines.drop_first();
        assert(lines.map_values(ended).drop_first() =~= rest.map_values(ended));
        assert(text == first.push('\n') + text_of(rest));
        assert(plain_line(lines[0]));
        assert forall|i: int| 0 <= i < rest.len() implies plain_line(#[trigger] rest[i]) by {
            assert(rest[i] == lines[i + 1]);
        }
        lemma_open_reads_what_was_saved(rest);
        let k = first.len() as int;
        assert(line_end(text, 0) == k) by {
            lemma_line_end(text, 0);
            assert(text[k] == '\n');
            assert forall|i: int| 0 <= i < k implies text[i] != '\n' by {
                assert(text[i] == first[i]);
            }
        }
        assert(text.subrange(0, k) =~= first);
        assert(text.skip(k + 1) =~= text_of(rest));
        lemma_lines_from_shift(text, k + 1, k + 1);
        assert(lines_of(text) =~= seq![first] + rest);
        assert(seq![first] + rest =~= lines);
    }
}

} // verus!
