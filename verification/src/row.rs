//! One line of text, addressed by grapheme cluster.
use crate::cluster::{
    join, display, displayed, excise, excised, find, found, joined, lemma_count_le_len, occurs,
    splice, spliced,
};
use crate::editor::SearchDir;
use crate::grapheme::{grapheme_clusters, graphemes, partitions};
use vstd::prelude::*;
use vstd::utf8::encode_utf8;

verus! {

/// The number of grapheme clusters in `text`.
pub open spec fn cluster_count(text: Seq<char>) -> nat {
    grapheme_clusters(text).len()
}

/// The text of the clusters `from..to` of `text`.
pub open spec fn span(text: Seq<char>, from: int, to: int) -> Seq<char> {
    joined(grapheme_clusters(text), from, to)
}

/// `text` with `ch` put in front of cluster `at`, or at the end where `text`
/// has no such cluster.
pub open spec fn with_char(text: Seq<char>, at: int, ch: char) -> Seq<char> {
    if at >= cluster_count(text) {
        text.push(ch)
    } else {
        spliced(grapheme_clusters(text), at, seq![ch])
    }
}

/// `text` with `run` put in front of cluster `at`, or at the end where `text`
/// has no such cluster.
pub open spec fn with_run(text: Seq<char>, at: int, run: Seq<char>) -> Seq<char> {
    if at >= cluster_count(text) {
        text + run
    } else {
        spliced(grapheme_clusters(text), at, run)
    }
}

/// `text` without its cluster `at`; `text` itself where it has no such
/// cluster.
pub open spec fn without_cluster(text: Seq<char>, at: int) -> Seq<char> {
    if at < cluster_count(text) {
        excised(grapheme_clusters(text), at, at + 1)
    } else {
        text
    }
}

/// Whether `from..to` names at least one cluster of `text` and none past its
/// end.
pub open spec fn names_clusters(text: Seq<char>, from: int, to: int) -> bool {
    from < to <= cluster_count(text)
}

/// `text` without its clusters `from..to`; `text` itself where the range
/// names none.
pub open spec fn without_span(text: Seq<char>, from: int, to: int) -> Seq<char> {
    if names_clusters(text, from, to) {
        excised(grapheme_clusters(text), from, to)
    } else {
        text
    }
}

/// What the screen shows for the clusters `start..end` of `text`, both ends
/// brought into range first.
pub open spec fn rendered(text: Seq<char>, start: int, end: int) -> Seq<char> {
    displayed(grapheme_clusters(text), start, end)
}

/// `query` is not empty and the clusters `x..end` of `text` begin with it.
pub open spec fn occurs_at(text: Seq<char>, query: Seq<char>, x: int, end: int) -> bool {
    occurs(grapheme_clusters(text), query, x, end)
}

/// Where a search of `text` for `query` ends that starts at cluster `at`.
///
/// Forward it is the first occurrence that begins at or after `at`. Backward
/// it is the last occurrence that lies wholly before `at`. There is none
/// where `query` is empty or `at` is past the end of `text`.
pub open spec fn find_in(text: Seq<char>, query: Seq<char>, at: int, direction: SearchDir) -> Option<
    int,
> {
    found(grapheme_clusters(text), query, at, direction)
}

/// One line of text with the count of its grapheme clusters kept beside it.
#[derive(Clone)]
pub struct Row {
    string: String,
    len: usize,
}

impl View for Row {
    type V = Seq<char>;

    closed spec fn view(&self) -> Seq<char> {
        self.string@
    }
}

impl Row {
    /// The kept count is the number of clusters of the text, and the clusters
    /// divide the text.
    pub closed spec fn wf(&self) -> bool {
        &&& self.len == cluster_count(self.string@)
        &&& partitions(grapheme_clusters(self.string@), self.string@)
    }

    /// What a well-formed row knows of its clusters.
    pub proof fn lemma_wf(&self)
        requires
            self.wf(),
        ensures
            partitions(grapheme_clusters(self@), self@),
            cluster_count(self@) <= self@.len(),
            cluster_count(self@) <= usize::MAX,
    {
        lemma_count_le_len(grapheme_clusters(self@));
    }

    /// The row of `text`.
    pub fn new(text: &str) -> (row: Row)
        ensures
            row.wf(),
            row@ == text@,
    {
        let parts = graphemes(text);
        let len = parts.len();
        Row { string: String::from_str(text), len }
    }

    /// The number of grapheme clusters in the row.
    pub fn size(&self) -> (n: usize)
        requires
            self.wf(),
        ensures
            n == cluster_count(self@),
    {
        self.len
    }

    /// The text as it is stored.
    pub fn string(&self) -> (text: &str)
        ensures
            text@ == self@,
    {
        self.string.as_str()
    }

    /// The text as UTF-8.
    pub fn as_bytes(&self) -> (bytes: &[u8])
        ensures
            bytes@ == encode_utf8(self@),
    {
        self.string.as_str().as_bytes()
    }

    fn update_len(&mut self)
        ensures
            final(self).wf(),
            final(self)@ == old(self)@,
    {
        let parts = graphemes(self.string.as_str());
        self.len = parts.len();
    }

    /// What the screen shows for the clusters `start..end`: a tab becomes one
    /// space, everything else passes through. Both ends are brought into
    /// range, so a range that names nothing shows nothing.
    pub fn render(&self, start: usize, end: usize) -> (line: String)
        ensures
            line@ == rendered(self@, start as int, end as int),
    {
        let parts = graphemes(self.string.as_str());
        display(&parts, start, end)
    }

    /// Searches the row for `query` from cluster `at`.
    ///
    /// Forward, the answer is the first cluster offset at or after `at` where
    /// `query` begins. Backward, it is the last offset where `query` begins
    /// and ends before `at`. An empty query, or an `at` past the end of the
    /// row, finds nothing.
    pub fn find(&self, query: &str, at: usize, direction: SearchDir) -> (hit: Option<usize>)
        ensures
            match hit {
                Some(x) => find_in(self@, query@, at as int, direction) == Some(x as int),
                None => find_in(self@, query@, at as int, direction) is None,
            },
    {
        let parts = graphemes(self.string.as_str());
        find(&parts, query, at, direction)
    }

    /// Puts `ch` in front of cluster `at`; at the end where there is no such
    /// cluster.
    pub fn insert(&mut self, at: usize, ch: char)
        requires
            old(self).wf(),
        ensures
            final(self).wf(),
            final(self)@ == with_char(old(self)@, at as int, ch),
    {
        if at >= self.len {
            self.string.push(ch);
        } else {
            let mut run = String::new();
            run.push(ch);
            assert(run@ =~= seq![ch]);
            let parts = graphemes(self.string.as_str());
            let result = splice(&parts, at, run.as_str());
            self.string = result;
        }
        self.update_len();
    }

    /// Puts `s` in front of cluster `at`; at the end where there is no such
    /// cluster.
    pub fn insert_str(&mut self, at: usize, s: &str)
        requires
            old(self).wf(),
        ensures
            final(self).wf(),
            final(self)@ == with_run(old(self)@, at as int, s@),
    {
        if at >= self.len {
            self.string.append(s);
        } else {
            let parts = graphemes(self.string.as_str());
            let result = splice(&parts, at, s);
            self.string = result;
        }
        self.update_len();
    }

    /// Removes cluster `at`, if there is one.
    pub fn delete(&mut self, at: usize)
        requires
            old(self).wf(),
        ensures
            final(self).wf(),
            final(self)@ == without_cluster(old(self)@, at as int),
    {
        if at < self.len {
            let parts = graphemes(self.string.as_str());
            let result = excise(&parts, at, at + 1);
            self.string = result;
            self.update_len();
        }
    }

    /// Removes the clusters `from..to` and hands their text back; does
    /// nothing where the range names no cluster or runs past the end.
    pub fn delete_slice(&mut self, from: usize, to: usize) -> (removed: Option<String>)
        requires
            old(self).wf(),
        ensures
            final(self).wf(),
            final(self)@ == without_span(old(self)@, from as int, to as int),
            match removed {
                Some(text) => names_clusters(old(self)@, from as int, to as int) && text@ == span(
                    old(self)@,
                    from as int,
                    to as int,
                ),
                None => !names_clusters(old(self)@, from as int, to as int),
            },
    {
        if to > from && to <= self.len {
            let parts = graphemes(self.string.as_str());
            let removed_part = join(&parts, from, to);
            let result = excise(&parts, from, to);
            self.string = result;
            self.update_len();
            return Some(removed_part);
        }
        None
    }
}

impl Default for Row {
    /// The empty row.
    fn default() -> (row: Row)
        ensures
            row.wf(),
            row@ == Seq::<char>::empty(),
    {
        let mut row = Row { string: String::new(), len: 0 };
        row.update_len();
        row
    }
}

impl From<String> for Row {
    fn from(string: String) -> (row: Row)
        ensures
            row.wf(),
            row@ == string@,
    {
        let len = graphemes(string.as_str()).len();
        Row { string, len }
    }
}

impl vstd::std_specs::convert::FromSpecImpl<String> for Row {
    open spec fn obeys_from_spec() -> bool {
        true
    }

    closed spec fn from_spec(string: String) -> Row {
        Row { string, len: cluster_count(string@) as usize }
    }
}

impl<'a> From<&'a str> for Row {
    fn from(slice: &'a str) -> (row: Row)
        ensures
            row.wf(),
            row@ == slice@,
    {
        Row::new(slice)
    }
}

/// A slice names no `String` in specifications, so this conversion is
/// described by the clauses of `from` alone.
impl<'a> vstd::std_specs::convert::FromSpecImpl<&'a str> for Row {
    open spec fn obeys_from_spec() -> bool {
        false
    }

    closed spec fn from_spec(slice: &'a str) -> Row {
        arbitrary()
    }
}

} // verus!
