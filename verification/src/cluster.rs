//! Editing, showing and searching text that is given as a sequence of
//! clusters.
//!
//! Nothing here asks how the clusters came about: every function takes them
//! as they are and is exact about what it makes of them.
use crate::editor::SearchDir;
use vstd::prelude::*;
use vstd::seq_lib::lemma_flatten_concat;

verus! {

/// The text held by the clusters `from..to` of `parts`.
pub open spec fn joined(parts: Seq<Seq<char>>, from: int, to: int) -> Seq<char> {
    parts.subrange(from, to).flatten()
}

/// The number of scalar values that precede cluster `k` of `parts`.
pub open spec fn offset_of(parts: Seq<Seq<char>>, k: int) -> nat {
    joined(parts, 0, k).len()
}

/// The text of `parts` with `run` put in front of cluster `at`.
pub open spec fn spliced(parts: Seq<Seq<char>>, at: int, run: Seq<char>) -> Seq<char> {
    joined(parts, 0, at) + run + joined(parts, at, parts.len() as int)
}

/// The text of `parts` without the clusters `from..to`.
pub open spec fn excised(parts: Seq<Seq<char>>, from: int, to: int) -> Seq<char> {
    joined(parts, 0, from) + joined(parts, to, parts.len() as int)
}

/// What the screen shows for one cluster: a space for a tab, the cluster
/// itself otherwise.
pub open spec fn shown(cluster: Seq<char>) -> Seq<char> {
    if cluster == seq!['\t'] {
        seq![' ']
    } else {
        cluster
    }
}

/// What the screen shows for the clusters `start..end` of `parts`, both ends
/// brought into range first: `end` to the number of clusters at most, then
/// `start` to `end` at most.
pub open spec fn displayed(parts: Seq<Seq<char>>, start: int, end: int) -> Seq<char> {
    let end = if end <= parts.len() {
        end
    } else {
        parts.len() as int
    };
    let start = if start <= end {
        start
    } else {
        end
    };
    parts.subrange(start, end).map_values(|c: Seq<char>| shown(c)).flatten()
}

/// `query` is not empty and the clusters `x..end` of `parts` begin with it.
pub open spec fn occurs(parts: Seq<Seq<char>>, query: Seq<char>, x: int, end: int) -> bool {
    &&& 0 <= x < end <= parts.len()
    &&& query.len() > 0
    &&& query.is_prefix_of(joined(parts, x, end))
}

/// The first cluster offset at or after `x` where `query` occurs in `parts`.
pub open spec fn first_among(parts: Seq<Seq<char>>, query: Seq<char>, x: int) -> Option<int>
    decreases parts.len() - x,
{
    if x < 0 || x >= parts.len() {
        None
    } else if occurs(parts, query, x, parts.len() as int) {
        Some(x)
    } else {
        first_among(parts, query, x + 1)
    }
}

/// The last cluster offset below `x` where `query` occurs in the clusters of
/// `parts` that precede `end`.
pub open spec fn last_among(parts: Seq<Seq<char>>, query: Seq<char>, end: int, x: int) -> Option<
    int,
>
    decreases x,
{
    if x <= 0 {
        None
    } else if occurs(parts, query, x - 1, end) {
        Some(x - 1)
    } else {
        last_among(parts, query, end, x - 1)
    }
}

/// Where a search of `parts` for `query` ends that starts at cluster `at`.
///
/// Forward it is the first occurrence that begins at or after `at`. Backward
/// it is the last occurrence that lies wholly before `at`. There is none
/// where `query` is empty or `at` is past the last cluster.
pub open spec fn found(parts: Seq<Seq<char>>, query: Seq<char>, at: int, direction: SearchDir) -> Option<
    int,
> {
    match direction {
        SearchDir::Forward => first_among(parts, query, at),
        SearchDir::Backward => last_among(parts, query, at, at),
    }
}

/// Joining two adjacent runs of clusters joins their text.
pub proof fn lemma_joined_adjacent(parts: Seq<Seq<char>>, from: int, mid: int, to: int)
    requires
        0 <= from <= mid <= to <= parts.len(),
    ensures
        joined(parts, from, mid) + joined(parts, mid, to) == joined(parts, from, to),
{
    assert(parts.subrange(from, mid) + parts.subrange(mid, to) =~= parts.subrange(from, to));
    lemma_flatten_concat(parts.subrange(from, mid), parts.subrange(mid, to));
}

/// All clusters joined are the whole text, and no clusters joined are none
/// of it.
pub proof fn lemma_joined_all(parts: Seq<Seq<char>>)
    ensures
        joined(parts, 0, parts.len() as int) == parts.flatten(),
        forall|k: int| 0 <= k <= parts.len() ==> joined(parts, k, k) == Seq::<char>::empty(),
{
    assert(parts.subrange(0, parts.len() as int) =~= parts);
    assert forall|k: int| 0 <= k <= parts.len() implies joined(parts, k, k) == Seq::<
        char,
    >::empty() by {
        assert(parts.subrange(k, k) =~= Seq::<Seq<char>>::empty());
    }
}

/// A run of one cluster is that cluster.
pub proof fn lemma_joined_one(parts: Seq<Seq<char>>, k: int)
    requires
        0 <= k < parts.len(),
    ensures
        joined(parts, k, k + 1) == parts[k],
{
    let one = parts.subrange(k, k + 1);
    assert(one.first() == parts[k]);
    one.lemma_flatten_one_element();
}

/// Cluster offsets grow with the cluster index and end at the length of the
/// text.
pub proof fn lemma_offsets_ordered(parts: Seq<Seq<char>>, i: int, j: int)
    requires
        0 <= i <= j <= parts.len(),
    ensures
        offset_of(parts, i) <= offset_of(parts, j) <= parts.flatten().len(),
        offset_of(parts, j) == offset_of(parts, i) + joined(parts, i, j).len(),
{
    lemma_joined_adjacent(parts, 0, i, j);
    lemma_joined_adjacent(parts, 0, j, parts.len() as int);
    lemma_joined_all(parts);
}

/// The text of the clusters `from..to` is the stretch of the whole text
/// between their offsets.
pub proof fn lemma_joined_is_subrange(parts: Seq<Seq<char>>, from: int, to: int)
    requires
        0 <= from <= to <= parts.len(),
    ensures
        joined(parts, from, to) == parts.flatten().subrange(
            offset_of(parts, from) as int,
            offset_of(parts, to) as int,
        ),
{
    lemma_joined_adjacent(parts, 0, from, to);
    lemma_joined_adjacent(parts, 0, to, parts.len() as int);
    lemma_joined_all(parts);
    let a = joined(parts, 0, from);
    let b = joined(parts, from, to);
    let c = joined(parts, to, parts.len() as int);
    assert(parts.flatten() == (a + b) + c);
    assert(((a + b) + c).subrange(a.len() as int, (a + b).len() as int) =~= b);
}

/// Where no cluster is empty, there are no more clusters than scalar values.
pub proof fn lemma_count_le_len(parts: Seq<Seq<char>>)
    requires
        forall|i: int| 0 <= i < parts.len() ==> (#[trigger] parts[i]).len() > 0,
    ensures
        parts.len() <= parts.flatten().len(),
    decreases parts.len(),
{
    if parts.len() > 0 {
        assert(parts.first().len() > 0);
        let rest = parts.drop_first();
        assert forall|i: int| 0 <= i < rest.len() implies (#[trigger] rest[i]).len() > 0 by {
            assert(rest[i] == parts[i + 1]);
        }
        lemma_count_le_len(rest);
    }
}

/// A forward search answers with an occurrence that no other occurrence at
/// or after the start precedes, and with nothing only where nothing occurs
/// from the start on.
pub proof fn lemma_first_among(parts: Seq<Seq<char>>, query: Seq<char>, x: int)
    requires
        0 <= x,
    ensures
        match first_among(parts, query, x) {
            Some(hit) => {
                &&& x <= hit
                &&& occurs(parts, query, hit, parts.len() as int)
                &&& forall|k: int| x <= k < hit ==> !occurs(parts, query, k, parts.len() as int)
            },
            None => forall|k: int| x <= k ==> !occurs(parts, query, k, parts.len() as int),
        },
    decreases parts.len() - x,
{
    if x < parts.len() && !occurs(parts, query, x, parts.len() as int) {
        lemma_first_among(parts, query, x + 1);
    }
}

/// A backward search answers with an occurrence that ends before `end` and
/// that no other such occurrence below `x` follows, and with nothing only
/// where there is no such occurrence.
pub proof fn lemma_last_among(parts: Seq<Seq<char>>, query: Seq<char>, end: int, x: int)
    ensures
        match last_among(parts, query, end, x) {
            Some(hit) => {
                &&& hit < x
                &&& occurs(parts, query, hit, end)
                &&& forall|k: int| hit < k < x ==> !occurs(parts, query, k, end)
            },
            None => forall|k: int| k < x ==> !occurs(parts, query, k, end),
        },
    decreases x,
{
    if x > 0 && !occurs(parts, query, x - 1, end) {
        lemma_last_among(parts, query, end, x - 1);
    }
}

/// A forward search finds nothing where nothing occurs.
proof fn lemma_first_among_none(parts: Seq<Seq<char>>, query: Seq<char>, x: int)
    requires
        forall|k: int| x <= k ==> !occurs(parts, query, k, parts.len() as int),
    ensures
        first_among(parts, query, x) is None,
    decreases parts.len() - x,
{
    if 0 <= x < parts.len() {
        lemma_first_among_none(parts, query, x + 1);
    }
}

/// A backward search finds nothing where nothing occurs.
proof fn lemma_last_among_none(parts: Seq<Seq<char>>, query: Seq<char>, end: int, x: int)
    requires
        forall|k: int| k < x ==> !occurs(parts, query, k, end),
    ensures
        last_among(parts, query, end, x) is None,
    decreases x,
{
    if x > 0 {
        lemma_last_among_none(parts, query, end, x - 1);
    }
}

/// The text of the clusters `from..to` of `parts`, joined into one string.
pub fn join(parts: &Vec<&str>, from: usize, to: usize) -> (text: String)
    requires
        from <= to <= parts.len(),
    ensures
        text@ == joined(parts.deep_view(), from as int, to as int),
{
    let mut text = String::new();
    let mut i: usize = from;
    proof {
        lemma_joined_all(parts.deep_view());
    }
    while i < to
        invariant
            from <= i <= to <= parts.len(),
            text@ == joined(parts.deep_view(), from as int, i as int),
        decreases to - i,
    {
        proof {
            lemma_joined_adjacent(parts.deep_view(), from as int, i as int, i + 1);
            lemma_joined_one(parts.deep_view(), i as int);
        }
        text.append(parts[i]);
        i += 1;
    }
    text
}

/// The text of `parts` with `run` put in front of cluster `at`.
pub fn splice(parts: &Vec<&str>, at: usize, run: &str) -> (text: String)
    requires
        at <= parts.len(),
    ensures
        text@ == spliced(parts.deep_view(), at as int, run@),
{
    let mut result = join(parts, 0, at);
    let remainder = join(parts, at, parts.len());
    result.append(run);
    result.append(remainder.as_str());
    result
}

/// The text of `parts` without the clusters `from..to`.
pub fn excise(parts: &Vec<&str>, from: usize, to: usize) -> (text: String)
    requires
        from <= to <= parts.len(),
    ensures
        text@ == excised(parts.deep_view(), from as int, to as int),
{
    let mut result = join(parts, 0, from);
    let remainder = join(parts, to, parts.len());
    result.append(remainder.as_str());
    result
}

/// What the screen shows for the clusters `start..end` of `parts`: a tab
/// becomes one space, everything else passes through. Both ends are brought
/// into range, so a range that names nothing shows nothing.
pub fn display(parts: &Vec<&str>, start: usize, end: usize) -> (line: String)
    ensures
        line@ == displayed(parts.deep_view(), start as int, end as int),
{
    let end = if end <= parts.len() {
        end
    } else {
        parts.len()
    };
    let start = if start <= end {
        start
    } else {
        end
    };
    let ghost clusters = parts.deep_view();
    let ghost show = |c: Seq<char>| shown(c);
    let mut result = String::new();
    let mut i: usize = start;
    proof {
        assert(clusters.subrange(start as int, start as int).map_values(show) =~= Seq::<
            Seq<char>,
        >::empty());
    }
    while i < end
        invariant
            start <= i <= end <= parts.len(),
            clusters == parts.deep_view(),
            show == |c: Seq<char>| shown(c),
            result@ == clusters.subrange(start as int, i as int).map_values(show).flatten(),
        decreases end - i,
    {
        let part: &str = parts[i];
        proof {
            let done = clusters.subrange(start as int, i as int).map_values(show);
            assert(clusters.subrange(start as int, i + 1).map_values(show) =~= done.push(
                shown(part@),
            ));
            done.lemma_flatten_push(shown(part@));
        }
        if part.unicode_len() == 1 && part.get_char(0) == '\t' {
            proof {
                reveal_strlit(" ");
                assert(part@ =~= seq!['\t']);
                assert(" "@ =~= seq![' ']);
            }
            result.append(" ");
        } else {
            result.append(part);
        }
        i += 1;
    }
    result
}

/// The scalar values of `text`, one element each.
pub fn scalars(text: &str) -> (values: Vec<char>)
    ensures
        values@ == text@,
{
    let mut values: Vec<char> = Vec::new();
    for c in it: text.chars()
        invariant
            values@ == it.seq().take(it.index()),
    {
        values.push(c);
    }
    values
}

/// The offset of every cluster of `parts`, and after them the length of the
/// whole text.
pub fn offsets(parts: &Vec<&str>) -> (starts: Vec<usize>)
    requires
        parts.deep_view().flatten().len() <= usize::MAX,
    ensures
        starts.len() == parts.len() + 1,
        forall|i: int|
            0 <= i <= parts.len() ==> (#[trigger] starts[i]) == offset_of(parts.deep_view(), i),
{
    let mut starts: Vec<usize> = Vec::new();
    let mut total: usize = 0;
    let mut i: usize = 0;
    proof {
        lemma_joined_all(parts.deep_view());
    }
    starts.push(0);
    while i < parts.len()
        invariant
            i <= parts.len(),
            parts.deep_view().flatten().len() <= usize::MAX,
            starts.len() == i + 1,
            total == offset_of(parts.deep_view(), i as int),
            forall|k: int| 0 <= k <= i ==> (#[trigger] starts[k]) == offset_of(parts.deep_view(), k),
        decreases parts.len() - i,
    {
        proof {
            lemma_offsets_ordered(parts.deep_view(), i as int, i + 1);
            lemma_joined_one(parts.deep_view(), i as int);
        }
        total = total + parts[i].unicode_len();
        starts.push(total);
        i += 1;
    }
    starts
}

/// Whether `needle` stands in `text` at `from`, without running past `to`.
pub fn stands_at(text: &Vec<char>, from: usize, to: usize, needle: &Vec<char>) -> (b: bool)
    requires
        from <= to <= text.len(),
    ensures
        b == needle@.is_prefix_of(text@.subrange(from as int, to as int)),
{
    if needle.len() > to - from {
        return false;
    }
    let mut i: usize = 0;
    while i < needle.len()
        invariant
            i <= needle.len() <= to - from,
            from <= to <= text.len(),
            forall|j: int| 0 <= j < i ==> needle[j] == text[from + j],
        decreases needle.len() - i,
    {
        if needle[i] != text[from + i] {
            assert(text@.subrange(from as int, to as int).subrange(0, needle.len() as int)[i as int]
                == text[from + i]);
            return false;
        }
        i += 1;
    }
    assert(needle@ =~= text@.subrange(from as int, to as int).subrange(0, needle.len() as int));
    true
}

/// Searches `parts` for `query` from cluster `at`.
///
/// Forward, the answer is the first cluster offset at or after `at` where
/// `query` begins. Backward, it is the last offset where `query` begins and
/// ends before `at`. An empty query, or an `at` past the last cluster, finds
/// nothing.
pub fn find(parts: &Vec<&str>, query: &str, at: usize, direction: SearchDir) -> (hit: Option<usize>)
    ensures
        match hit {
            Some(x) => found(parts.deep_view(), query@, at as int, direction) == Some(x as int),
            None => found(parts.deep_view(), query@, at as int, direction) is None,
        },
{
    let ghost clusters = parts.deep_view();
    let count = parts.len();
    let needle = scalars(query);
    if needle.len() == 0 || at > count {
        proof {
            lemma_first_among_none(clusters, query@, at as int);
            lemma_last_among_none(clusters, query@, at as int, at as int);
        }
        return None;
    }
    let whole = join(parts, 0, count);
    let text = scalars(whole.as_str());
    proof {
        lemma_joined_all(clusters);
    }
    assert(clusters.flatten().len() == text.len());
    let starts = offsets(parts);
    match direction {
        SearchDir::Forward => {
            let mut x: usize = at;
            while x < count
                invariant
                    direction is Forward,
                    at <= x <= count,
                    count == parts.len(),
                    clusters == parts.deep_view(),
                    clusters.flatten() == text@,
                    needle@ == query@,
                    needle.len() > 0,
                    starts.len() == count + 1,
                    forall|i: int|
                        0 <= i <= count ==> (#[trigger] starts[i]) == offset_of(clusters, i),
                    first_among(clusters, query@, at as int) == first_among(
                        clusters,
                        query@,
                        x as int,
                    ),
                decreases count - x,
            {
                proof {
                    lemma_joined_is_subrange(clusters, x as int, count as int);
                    lemma_offsets_ordered(clusters, x as int, count as int);
                }
                if stands_at(&text, starts[x], starts[count], &needle) {
                    return Some(x);
                }
                x += 1;
            }
            None
        },
        SearchDir::Backward => {
            let mut x: usize = at;
            proof {
                lemma_offsets_ordered(clusters, at as int, count as int);
            }
            while x > 0
                invariant
                    direction is Backward,
                    x <= at <= count,
                    count == parts.len(),
                    clusters == parts.deep_view(),
                    clusters.flatten() == text@,
                    needle@ == query@,
                    needle.len() > 0,
                    starts.len() == count + 1,
                    starts[at as int] <= text.len(),
                    forall|i: int|
                        0 <= i <= count ==> (#[trigger] starts[i]) == offset_of(clusters, i),
                    last_among(clusters, query@, at as int, at as int) == last_among(
                        clusters,
                        query@,
                        at as int,
                        x as int,
                    ),
                decreases x,
            {
                proof {
                    lemma_joined_is_subrange(clusters, x - 1, at as int);
                    lemma_offsets_ordered(clusters, x - 1, at as int);
                }
                if stands_at(&text, starts[x - 1], starts[at], &needle) {
                    return Some(x - 1);
                }
                x -= 1;
            }
            None
        },
    }
}

} // verus!
