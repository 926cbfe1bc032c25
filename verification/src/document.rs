//! The lines of a file, and the edits and searches that span them.
use crate::editor::{Position, SearchDir};
use crate::cluster::{lemma_joined_all, scalars};
use crate::grapheme::{grapheme_clusters, partitions};
use crate::row::{
    cluster_count, find_in, span, with_char, with_run, without_cluster, Row,
};
use vstd::prelude::*;

verus! {

/// What stays of a line that is split in front of cluster `x`.
pub open spec fn head_of(line: Seq<char>, x: int) -> Seq<char> {
    if x < cluster_count(line) {
        span(line, 0, x)
    } else {
        line
    }
}

/// What leaves a line that is split in front of cluster `x`.
pub open spec fn tail_of(line: Seq<char>, x: int) -> Seq<char> {
    if x < cluster_count(line) {
        span(line, x, cluster_count(line) as int)
    } else {
        Seq::empty()
    }
}

/// `lines` with line `y` split in front of its cluster `x`: the clusters from
/// `x` on become a new line right after it. Unchanged where there is no line
/// `y`.
pub open spec fn split_line(lines: Seq<Seq<char>>, x: int, y: int) -> Seq<Seq<char>> {
    if 0 <= y < lines.len() {
        lines.update(y, head_of(lines[y], x)).insert(y + 1, tail_of(lines[y], x))
    } else {
        lines
    }
}

/// `lines` after `ch` is typed at cluster `x` of line `y`.
///
/// A newline splits the line. Any other character goes into line `y`, or
/// into a new last line where `y` is one past the end. Unchanged where `y` is
/// further out.
pub open spec fn with_inserted(lines: Seq<Seq<char>>, x: int, y: int, ch: char) -> Seq<Seq<char>> {
    if y > lines.len() {
        lines
    } else if ch == '\n' {
        split_line(lines, x, y)
    } else if y == lines.len() {
        lines.push(seq![ch])
    } else {
        lines.update(y, with_char(lines[y], x, ch))
    }
}

/// `lines` after `run` is put at cluster `x` of line `y`, as it is, or made
/// a new last line where `y` is one past the end.
pub open spec fn with_inserted_run(lines: Seq<Seq<char>>, x: int, y: int, run: Seq<char>) -> Seq<
    Seq<char>,
> {
    if y > lines.len() {
        lines
    } else if y == lines.len() {
        lines.push(run)
    } else {
        lines.update(y, with_run(lines[y], x, run))
    }
}

/// Whether a deletion at cluster `x` of line `y` joins that line with the
/// next: `x` is the end of the line and the line is not the last.
pub open spec fn joins_next(lines: Seq<Seq<char>>, x: int, y: int) -> bool {
    0 <= y && y + 1 < lines.len() && x == cluster_count(lines[y])
}

/// `lines` after a deletion at cluster `x` of line `y`.
pub open spec fn with_deleted(lines: Seq<Seq<char>>, x: int, y: int) -> Seq<Seq<char>> {
    if joins_next(lines, x, y) {
        lines.update(y, lines[y] + lines[y + 1]).remove(y + 1)
    } else if 0 <= y < lines.len() {
        lines.update(y, without_cluster(lines[y], x))
    } else {
        lines
    }
}

/// Where a forward search ends that starts at cluster `x` of line `y`: on
/// the first line from `y` on that holds `query`, at its first occurrence
/// there; line `y` is searched from `x`, the lines after it from their start.
pub open spec fn find_forward(lines: Seq<Seq<char>>, query: Seq<char>, x: int, y: int) -> Option<
    (int, int),
>
    decreases lines.len() - y,
{
    if y < 0 || y >= lines.len() {
        None
    } else if let Some(hit) = find_in(lines[y], query, x, SearchDir::Forward) {
        Some((hit, y))
    } else {
        find_forward(lines, query, 0, y + 1)
    }
}

/// Where a backward search ends that starts at cluster `x` of line `y`: on
/// the last line up to `y` that holds `query`, at its last occurrence there;
/// line `y` is searched before `x`, the lines above it from their end.
pub open spec fn find_backward(lines: Seq<Seq<char>>, query: Seq<char>, x: int, y: int) -> Option<
    (int, int),
>
    decreases y,
{
    if y < 0 || y >= lines.len() {
        None
    } else if let Some(hit) = find_in(lines[y], query, x, SearchDir::Backward) {
        Some((hit, y))
    } else if y == 0 {
        None
    } else {
        find_backward(lines, query, cluster_count(lines[y - 1]) as int, y - 1)
    }
}

/// Where a search of `lines` for `query` ends that starts at cluster `x` of
/// line `y`, as `(x, y)`.
pub open spec fn found_in(
    lines: Seq<Seq<char>>,
    query: Seq<char>,
    x: int,
    y: int,
    direction: SearchDir,
) -> Option<(int, int)> {
    match direction {
        SearchDir::Forward => find_forward(lines, query, x, y),
        SearchDir::Backward => find_backward(lines, query, x, y),
    }
}

/// The index of the first newline of `text` at or after `from`; the length
/// of `text` where there is none.
pub open spec fn line_end(text: Seq<char>, from: int) -> int
    decreases text.len() - from,
{
    if from < 0 || from >= text.len() || text[from] == '\n' {
        from
    } else {
        line_end(text, from + 1)
    }
}

/// `line` without the carriage return at its end, if it has one.
pub open spec fn strip_cr(line: Seq<char>) -> Seq<char> {
    if line.len() > 0 && line.last() == '\r' {
        line.drop_last()
    } else {
        line
    }
}

/// The lines of `text` from index `from` on.
///
/// A line ends at a newline, which is not part of it; a carriage return just
/// before that newline is not part of it either. What follows the last
/// newline is a line of its own unless it is empty.
pub open spec fn lines_from(text: Seq<char>, from: int) -> Seq<Seq<char>>
    decreases text.len() - from,
{
    if from < 0 || from >= text.len() {
        Seq::empty()
    } else {
        let end = line_end(text, from);
        if end < text.len() {
            proof {
                lemma_line_end(text, from);
            }
            seq![strip_cr(text.subrange(from, end))] + lines_from(text, end + 1)
        } else {
            seq![text.subrange(from, end)]
        }
    }
}

/// The lines of `text`.
pub open spec fn lines_of(text: Seq<char>) -> Seq<Seq<char>> {
    lines_from(text, 0)
}

/// `lines` as the text of a file: every line, the last one too, followed by
/// one newline.
pub open spec fn text_of(lines: Seq<Seq<char>>) -> Seq<char> {
    lines.map_values(|line: Seq<char>| line.push('\n')).flatten()
}

/// The end of a line lies between its start and the end of the text, and no
/// newline stands before it.
pub proof fn lemma_line_end(text: Seq<char>, from: int)
    requires
        0 <= from <= text.len(),
    ensures
        from <= line_end(text, from) <= text.len(),
        forall|i: int| from <= i < line_end(text, from) ==> text[i] != '\n',
        line_end(text, from) < text.len() ==> text[line_end(text, from)] == '\n',
    decreases text.len() - from,
{
    if from < text.len() && text[from] != '\n' {
        lemma_line_end(text, from + 1);
    }
}

/// The scalar values `from..to` of `chars` as a string.
fn string_of(chars: &Vec<char>, from: usize, to: usize) -> (s: String)
    requires
        from <= to <= chars.len(),
    ensures
        s@ == chars@.subrange(from as int, to as int),
{
    let mut s = String::new();
    let mut i: usize = from;
    while i < to
        invariant
            from <= i <= to <= chars.len(),
            s@ == chars@.subrange(from as int, i as int),
        decreases to - i,
    {
        s.push(chars[i]);
        i += 1;
        assert(s@ =~= chars@.subrange(from as int, i as int));
    }
    s
}

/// The lines of a file in order, the path they belong to, and whether they
/// were edited since they were last read or saved.
#[derive(Clone)]
pub struct Document {
    pub path: Option<String>,
    rows: Vec<Row>,
    dirty: bool,
}

impl View for Document {
    type V = Seq<Seq<char>>;

    closed spec fn view(&self) -> Seq<Seq<char>> {
        Seq::new(self.rows.len() as nat, |i: int| self.rows[i]@)
    }
}

impl Document {
    /// Every row is well formed.
    pub closed spec fn wf(&self) -> bool {
        forall|i: int| 0 <= i < self.rows.len() ==> (#[trigger] self.rows[i]).wf()
    }

    /// Whether the lines were edited since they were last read or saved.
    pub closed spec fn dirty(&self) -> bool {
        self.dirty
    }

    /// The path of the file, if the document has one.
    pub closed spec fn path_view(&self) -> Option<Seq<char>> {
        match self.path {
            Some(path) => Some(path@),
            None => None,
        }
    }

    /// What a well-formed document knows of its lines.
    pub proof fn lemma_wf(&self)
        requires
            self.wf(),
        ensures
            self@.len() <= usize::MAX,
            forall|i: int|
                0 <= i < self@.len() ==> partitions(
                    grapheme_clusters(#[trigger] self@[i]),
                    self@[i],
                ),
            forall|i: int| 0 <= i < self@.len() ==> cluster_count(#[trigger] self@[i]) <= usize::MAX,
    {
        assert forall|i: int| 0 <= i < self@.len() implies partitions(
            grapheme_clusters(#[trigger] self@[i]),
            self@[i],
        ) && cluster_count(self@[i]) <= usize::MAX by {
            assert(self.rows[i].wf());
            self.rows[i].lemma_wf();
        }
    }

    /// The line at `index`, if there is one.
    pub fn row(&self, index: usize) -> (row: Option<&Row>)
        ensures
            match row {
                Some(row) => {
                    &&& index < self@.len()
                    &&& row@ == self@[index as int]
                    &&& self.wf() ==> row.wf()
                },
                None => index >= self@.len(),
            },
    {
        if index < self.rows.len() {
            Some(&self.rows[index])
        } else {
            None
        }
    }

    /// The number of lines.
    pub fn rows_size(&self) -> (n: usize)
        ensures
            n == self@.len(),
    {
        self.rows.len()
    }

    /// Whether there is no line at all.
    pub fn is_empty(&self) -> (b: bool)
        ensures
            b == (self@.len() == 0),
    {
        self.rows.len() == 0
    }

    /// Whether the lines were edited since they were last read or saved.
    pub fn is_dirty(&self) -> (b: bool)
        ensures
            b == self.dirty(),
    {
        self.dirty
    }

    /// Types `ch` at `at`.
    ///
    /// A newline splits the line at the cursor. Any other character is put
    /// into the line, or starts a new last line when the cursor stands one
    /// line past the end. A cursor further out is declined; every other call
    /// marks the document as edited.
    pub fn insert(&mut self, at: &Position<usize>, ch: char)
        requires
            old(self).wf(),
        ensures
            final(self).wf(),
            final(self)@ == with_inserted(old(self)@, at.x as int, at.y as int, ch),
            final(self).dirty() == (old(self).dirty() || at.y <= old(self)@.len()),
            final(self).path_view() == old(self).path_view(),
    {
        if at.y > self.rows_size() {
            return ;
        }
        self.dirty = true;
        if ch == '\n' {
            self.insert_enter_key(at);
            return ;
        }
        if at.y == self.rows_size() {
            let mut row = Row::default();
            proof {
                row.lemma_wf();
            }
            row.insert(0, ch);
            self.rows.push(row);
            assert(self@ =~= old(self)@.push(seq![ch]));
        } else {
            let row = &mut self.rows[at.y];
            row.insert(at.x, ch);
            assert(self@ =~= old(self)@.update(
                at.y as int,
                with_char(old(self)@[at.y as int], at.x as int, ch),
            ));
        }
    }

    /// Puts `s` at `at` as it is, without looking for newlines in it: into
    /// the line, or as a new last line when the cursor stands one line past
    /// the end. A cursor further out is declined; every other call marks the
    /// document as edited.
    pub fn insert_str(&mut self, at: &Position<usize>, s: &str)
        requires
            old(self).wf(),
        ensures
            final(self).wf(),
            final(self)@ == with_inserted_run(old(self)@, at.x as int, at.y as int, s@),
            final(self).dirty() == (old(self).dirty() || at.y <= old(self)@.len()),
            final(self).path_view() == old(self).path_view(),
    {
        if at.y == self.rows_size() {
            let mut row = Row::default();
            proof {
                row.lemma_wf();
            }
            row.insert_str(0, s);
            self.rows.push(row);
            self.dirty = true;
            assert(Seq::<char>::empty() + s@ =~= s@);
            assert(self@ =~= old(self)@.push(s@));
        } else if at.y < self.rows_size() {
            let row = &mut self.rows[at.y];
            row.insert_str(at.x, s);
            self.dirty = true;
            assert(self@ =~= old(self)@.update(
                at.y as int,
                with_run(old(self)@[at.y as int], at.x as int, s@),
            ));
        }
    }

    /// Deletes at `at`.
    ///
    /// At the end of a line that is not the last, the next line is joined
    /// onto this one. Anywhere else the cluster under the cursor goes, if
    /// there is one. A cursor on no line is declined; every other call marks
    /// the document as edited.
    pub fn delete(&mut self, at: &Position<usize>)
        requires
            old(self).wf(),
        ensures
            final(self).wf(),
            final(self)@ == with_deleted(old(self)@, at.x as int, at.y as int),
            final(self).dirty() == (old(self).dirty() || at.y < old(self)@.len()),
            final(self).path_view() == old(self).path_view(),
    {
        if at.y < self.rows_size() {
            self.dirty = true;
            if at.y < self.rows_size() - 1 && at.x == self.rows[at.y].size() {
                let next = self.rows.remove(at.y + 1);
                let row = &mut self.rows[at.y];
                let end = row.size();
                row.insert_str(end, next.string());
                assert(self@ =~= old(self)@.update(
                    at.y as int,
                    old(self)@[at.y as int] + old(self)@[at.y + 1],
                ).remove(at.y + 1));
                return ;
            }
            let row = &mut self.rows[at.y];
            row.delete(at.x);
            assert(self@ =~= old(self)@.update(
                at.y as int,
                without_cluster(old(self)@[at.y as int], at.x as int),
            ));
        }
    }

    /// Searches for `query` from `at`.
    ///
    /// Forward, line `at.y` is searched from `at.x` and each line after it
    /// from its start, down to the last line. Backward, line `at.y` is
    /// searched before `at.x` and each line above it from its end, up to the
    /// first line. The search never wraps round, and a cursor on no line
    /// finds nothing.
    pub fn find(&self, query: &str, at: &Position<usize>, direction: SearchDir) -> (found: Option<
        Position<usize>,
    >)
        requires
            self.wf(),
        ensures
            match found {
                Some(p) => found_in(self@, query@, at.x as int, at.y as int, direction) == Some(
                    (p.x as int, p.y as int),
                ),
                None => found_in(self@, query@, at.x as int, at.y as int, direction) is None,
            },
    {
        if at.y >= self.rows_size() {
            return None;
        }
        let mut position = Position { x: at.x, y: at.y };
        match direction {
            SearchDir::Forward => {
                while position.y < self.rows.len()
                    invariant
                        self.wf(),
                        direction is Forward,
                        position.y <= self@.len(),
                        find_forward(self@, query@, at.x as int, at.y as int) == find_forward(
                            self@,
                            query@,
                            position.x as int,
                            position.y as int,
                        ),
                    decreases self@.len() - position.y,
                {
                    if let Some(x) = self.rows[position.y].find(query, position.x, direction) {
                        position.x = x;
                        return Some(position);
                    }
                    position.y = position.y + 1;
                    position.x = 0;
                }
                None
            },
            SearchDir::Backward => {
                loop
                    invariant
                        self.wf(),
                        direction is Backward,
                        position.y < self@.len(),
                        find_backward(self@, query@, at.x as int, at.y as int) == find_backward(
                            self@,
                            query@,
                            position.x as int,
                            position.y as int,
                        ),
                    decreases position.y,
                {
                    if let Some(x) = self.rows[position.y].find(query, position.x, direction) {
                        position.x = x;
                        return Some(position);
                    }
                    if position.y == 0 {
                        return None;
                    }
                    position.y = position.y - 1;
                    position.x = self.rows[position.y].size();
                }
            },
        }
    }

    /// The document that a file at `path` with the text `contents` holds:
    /// one row for each line of the text, not edited.
    pub fn open(path: &str, contents: &str) -> (doc: Document)
        ensures
            doc.wf(),
            doc@ == lines_of(contents@),
            !doc.dirty(),
            doc.path_view() == Some(path@),
    {
        let chars = scalars(contents);
        let mut rows: Vec<Row> = Vec::new();
        let mut from: usize = 0;
        let ghost mut lines: Seq<Seq<char>> = Seq::empty();
        while from < chars.len()
            invariant
                from <= chars.len(),
                chars@ == contents@,
                lines.len() == rows.len(),
                forall|i: int| 0 <= i < rows.len() ==> (#[trigger] rows[i]).wf(),
                forall|i: int| 0 <= i < rows.len() ==> (#[trigger] rows[i])@ == lines[i],
                lines + lines_from(chars@, from as int) == lines_of(chars@),
            decreases chars.len() - from,
        {
            let mut end: usize = from;
            while end < chars.len() && chars[end] != '\n'
                invariant
                    from <= end <= chars.len(),
                    line_end(chars@, from as int) == line_end(chars@, end as int),
                decreases chars.len() - end,
            {
                end += 1;
            }
            let terminated = end < chars.len();
            let mut stop: usize = end;
            if terminated && stop > from && chars[stop - 1] == '\r' {
                stop -= 1;
            }
            let line = string_of(&chars, from, stop);
            proof {
                let whole = chars@.subrange(from as int, end as int);
                if terminated {
                    if stop < end {
                        assert(whole.drop_last() =~= chars@.subrange(from as int, stop as int));
                    }
                    assert(line@ == strip_cr(whole));
                }
                let rest = if terminated {
                    lines_from(chars@, end + 1)
                } else {
                    Seq::empty()
                };
                assert(lines_from(chars@, from as int) =~= seq![line@] + rest);
                assert(lines.push(line@) + rest =~= lines + (seq![line@] + rest));
                lines = lines.push(line@);
            }
            rows.push(Row::from(line));
            from = if terminated {
                end + 1
            } else {
                end
            };
        }
        let doc = Document { path: Some(String::from_str(path)), rows, dirty: false };
        assert(doc@ =~= lines);
        assert(lines + Seq::<Seq<char>>::empty() =~= lines);
        doc
    }

    /// The text to write to the file: every line followed by one newline.
    pub fn to_text(&self) -> (text: String)
        ensures
            text@ == text_of(self@),
    {
        let ghost ended = |line: Seq<char>| line.push('\n');
        let mut text = String::new();
        let mut i: usize = 0;
        proof {
            assert(self@.take(0).map_values(ended) =~= Seq::<Seq<char>>::empty());
        }
        while i < self.rows.len()
            invariant
                i <= self.rows.len(),
                ended == |line: Seq<char>| line.push('\n'),
                text@ == self@.take(i as int).map_values(ended).flatten(),
            decreases self.rows.len() - i,
        {
            proof {
                let done = self@.take(i as int).map_values(ended);
                assert(self@.take(i + 1).map_values(ended) =~= done.push(
                    self@[i as int].push('\n'),
                ));
                done.lemma_flatten_push(self@[i as int].push('\n'));
            }
            text.append(self.rows[i].string());
            text.push('\n');
            i += 1;
        }
        assert(self@.take(i as int) =~= self@);
        text
    }

    /// The path of the file, if the document has one.
    pub fn path(&self) -> (path: Option<&str>)
        ensures
            match path {
                Some(path) => self.path_view() == Some(path@),
                None => self.path_view() is None,
            },
    {
        match &self.path {
            Some(path) => Some(path.as_str()),
            None => None,
        }
    }

    /// Records that the lines are on disk as they stand.
    pub fn mark_saved(&mut self)
        ensures
            final(self)@ == old(self)@,
            final(self).wf() == old(self).wf(),
            !final(self).dirty(),
            final(self).path_view() == old(self).path_view(),
    {
        self.dirty = false;
    }

    /// Gives the document the path `path`.
    pub fn set_path(&mut self, path: String)
        ensures
            final(self)@ == old(self)@,
            final(self).wf() == old(self).wf(),
            final(self).dirty() == old(self).dirty(),
            final(self).path_view() == Some(path@),
    {
        self.path = Some(path);
    }

    fn insert_enter_key(&mut self, at: &Position<usize>)
        requires
            old(self).wf(),
        ensures
            final(self).wf(),
            final(self)@ == split_line(old(self)@, at.x as int, at.y as int),
            final(self).dirty() == old(self).dirty(),
            final(self).path_view() == old(self).path_view(),
    {
        if at.y < self.rows_size() {
            let row = &mut self.rows[at.y];
            let mut new_row = Row::default();
            proof {
                new_row.lemma_wf();
            }
            let end = row.size();
            if let Some(slice) = row.delete_slice(at.x, end) {
                new_row.insert_str(0, slice.as_str());
                assert(Seq::<char>::empty() + slice@ =~= slice@);
            }
            self.rows.insert(at.y + 1, new_row);
            proof {
                let line = old(self)@[at.y as int];
                old(self).rows[at.y as int].lemma_wf();
                lemma_joined_all(grapheme_clusters(line));
                assert(self@ =~= split_line(old(self)@, at.x as int, at.y as int));
            }
        }
    }
}

impl Default for Document {
    /// The document of no lines, with no path, not edited.
    fn default() -> (doc: Document)
        ensures
            doc.wf(),
            doc@ == Seq::<Seq<char>>::empty(),
            !doc.dirty(),
            doc.path_view() is None,
    {
        Document { path: None, rows: Vec::new(), dirty: false }
    }
}

} // verus!
