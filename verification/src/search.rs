use vstd::prelude::*;

use crate::errors::LinkError;
use crate::query::LinkOptions;
use crate::text::{
    chop_cr, lemma_contains_self, lemma_lines_no_break, lemma_lines_unlines, line_views,
    no_line_break, spec_contains, spec_lines, spec_unlines, split_lines, str_contains,
};

verus! {

// ---------------------------------------------------------------------------
// The sequential subsequence matcher
//
// The query is split into lines, and the file is scanned top to bottom in a
// single forward pass. A cursor tracks the next unmatched query line; a file
// line that contains it as a substring is recorded and advances the cursor,
// any other file line is skipped. Matching is greedy: the earliest available
// file line after the previous match is always taken.
// ---------------------------------------------------------------------------
/// The 1-based numbers of the file lines recorded by the scan, starting at
/// file index `i` with the query cursor at `q`.
pub open spec fn matched_from(file: Seq<Seq<char>>, query: Seq<Seq<char>>, i: int, q: int) -> Seq<
    int,
>
    decreases file.len() - i,
{
    if i < 0 || i >= file.len() || q < 0 || q >= query.len() {
        seq![]
    } else if spec_contains(file[i], query[q]) {
        seq![i + 1] + matched_from(file, query, i + 1, q + 1)
    } else {
        matched_from(file, query, i + 1, q)
    }
}

/// The matched line numbers of a whole scan.
pub open spec fn spec_matched(file: Seq<Seq<char>>, query: Seq<Seq<char>>) -> Seq<int> {
    matched_from(file, query, 0, 0)
}

/// One-pass greedy matcher over already-split lines.
pub fn match_lines(file_lines: &Vec<String>, query_lines: &Vec<String>) -> (r: Vec<usize>)
    ensures
        r@.map_values(|x: usize| x as int) == spec_matched(
            line_views(file_lines@),
            line_views(query_lines@),
        ),
{
    let ghost fv = line_views(file_lines@);
    let ghost qv = line_views(query_lines@);
    let flen = file_lines.len();
    let qlen = query_lines.len();
    let mut nums: Vec<usize> = Vec::new();
    let mut q: usize = 0;
    let mut i: usize = 0;
    proof {
        assert(nums@.map_values(|x: usize| x as int) =~= Seq::<int>::empty());
    }
    while i < flen
        invariant
            i <= flen,
            q <= qlen,
            flen == fv.len(),
            qlen == qv.len(),
            fv == line_views(file_lines@),
            qv == line_views(query_lines@),
            spec_matched(fv, qv) =~= nums@.map_values(|x: usize| x as int) + matched_from(
                fv,
                qv,
                i as int,
                q as int,
            ),
        decreases flen - i,
    {
        let ghost nums_old = nums@;
        proof {
            assert(fv[i as int] == file_lines@[i as int]@);
            if q < qlen {
                assert(qv[q as int] == query_lines@[q as int]@);
            }
        }
        if q < qlen && str_contains(file_lines[i].as_str(), query_lines[q].as_str()) {
            nums.push(i + 1);
            proof {
                assert(matched_from(fv, qv, i as int, q as int) == seq![i + 1] + matched_from(
                    fv,
                    qv,
                    i + 1,
                    q + 1,
                ));
                assert(nums@.map_values(|x: usize| x as int) =~= nums_old.map_values(
                    |x: usize| x as int,
                ).push(i + 1));
                assert(nums@.map_values(|x: usize| x as int) + matched_from(fv, qv, i + 1, q + 1)
                    =~= nums_old.map_values(|x: usize| x as int) + (seq![i + 1] + matched_from(
                    fv,
                    qv,
                    i + 1,
                    q + 1,
                )));
            }
            q = q + 1;
        } else {
            proof {
                if q < qlen {
                    assert(matched_from(fv, qv, i as int, q as int) == matched_from(
                        fv,
                        qv,
                        i + 1,
                        q as int,
                    ));
                } else {
                    assert(matched_from(fv, qv, i as int, q as int) == Seq::<int>::empty());
                    assert(matched_from(fv, qv, i + 1, q as int) == Seq::<int>::empty());
                }
            }
        }
        i = i + 1;
    }
    proof {
        assert(matched_from(fv, qv, flen as int, q as int) == Seq::<int>::empty());
        assert(nums@.map_values(|x: usize| x as int) + Seq::<int>::empty() =~= nums@.map_values(
            |x: usize| x as int,
        ));
    }
    nums
}

/// Every recorded line number lies strictly after the scan position and
/// within the file, and no more lines are recorded than the query has left.
pub proof fn lemma_matched_bounds(file: Seq<Seq<char>>, query: Seq<Seq<char>>, i: int, q: int)
    requires
        0 <= i,
        0 <= q <= query.len(),
    ensures
        matched_from(file, query, i, q).len() <= query.len() - q,
        forall|k: int|
            0 <= k < matched_from(file, query, i, q).len() ==> i + 1 <= #[trigger] matched_from(
                file,
                query,
                i,
                q,
            )[k] <= file.len(),
    decreases file.len() - i,
{
    let m = matched_from(file, query, i, q);
    if i >= file.len() || q >= query.len() {
    } else if spec_contains(file[i], query[q]) {
        lemma_matched_bounds(file, query, i + 1, q + 1);
        let m2 = matched_from(file, query, i + 1, q + 1);
        assert forall|k: int| 0 <= k < m.len() implies i + 1 <= #[trigger] m[k] <= file.len() by {
            if k > 0 {
                assert(m[k] == m2[k - 1]);
            }
        }
    } else {
        lemma_matched_bounds(file, query, i + 1, q);
    }
}

/// The recorded line numbers are strictly increasing.
pub proof fn lemma_matched_sorted(file: Seq<Seq<char>>, query: Seq<Seq<char>>, i: int, q: int)
    requires
        0 <= i,
        0 <= q <= query.len(),
    ensures
        forall|a: int, b: int|
            0 <= a < b < matched_from(file, query, i, q).len() ==> #[trigger] matched_from(
                file,
                query,
                i,
                q,
            )[a] < #[trigger] matched_from(file, query, i, q)[b],
    decreases file.len() - i,
{
    let m = matched_from(file, query, i, q);
    if i >= file.len() || q >= query.len() {
    } else if spec_contains(file[i], query[q]) {
        lemma_matched_sorted(file, query, i + 1, q + 1);
        lemma_matched_bounds(file, query, i + 1, q + 1);
        let m2 = matched_from(file, query, i + 1, q + 1);
        assert forall|a: int, b: int|
            0 <= a < b < m.len() implies #[trigger] m[a] < #[trigger] m[b] by {
            assert(m[b] == m2[b - 1]);
            if a > 0 {
                assert(m[a] == m2[a - 1]);
            } else {
                assert(m[a] == i + 1);
            }
        }
    } else {
        lemma_matched_sorted(file, query, i + 1, q);
        let m2 = matched_from(file, query, i + 1, q);
        assert forall|a: int, b: int|
            0 <= a < b < m.len() implies #[trigger] m[a] < #[trigger] m[b] by {
            assert(m[a] == m2[a]);
            assert(m[b] == m2[b]);
        }
    }
}

/// The `k`-th recorded line contains the `k`-th pending query line: matching
/// is order-preserving, pairing query lines with file lines in file order.
pub proof fn lemma_matched_aligned(file: Seq<Seq<char>>, query: Seq<Seq<char>>, i: int, q: int)
    requires
        0 <= i,
        0 <= q <= query.len(),
    ensures
        forall|k: int|
            0 <= k < matched_from(file, query, i, q).len() ==> {
                let ln = #[trigger] matched_from(file, query, i, q)[k];
                &&& 1 <= ln <= file.len()
                &&& q + k < query.len()
                &&& spec_contains(file[ln - 1], query[q + k])
            },
    decreases file.len() - i,
{
    let m = matched_from(file, query, i, q);
    if i >= file.len() || q >= query.len() {
    } else if spec_contains(file[i], query[q]) {
        lemma_matched_aligned(file, query, i + 1, q + 1);
        let m2 = matched_from(file, query, i + 1, q + 1);
        assert forall|k: int|
            0 <= k < m.len() implies {
            let ln = #[trigger] m[k];
            &&& 1 <= ln <= file.len()
            &&& q + k < query.len()
            &&& spec_contains(file[ln - 1], query[q + k])
        } by {
            if k > 0 {
                assert(m[k] == m2[k - 1]);
            } else {
                assert(m[k] == i + 1);
                assert(spec_contains(file[i], query[q]));
            }
        }
    } else {
        lemma_matched_aligned(file, query, i + 1, q);
        let m2 = matched_from(file, query, i + 1, q);
        assert forall|k: int|
            0 <= k < m.len() implies {
            let ln = #[trigger] m[k];
            &&& 1 <= ln <= file.len()
            &&& q + k < query.len()
            &&& spec_contains(file[ln - 1], query[q + k])
        } by {
            assert(m[k] == m2[k]);
        }
    }
}

/// When at least one line is matched, the first recorded number is the
/// minimum of all matched line numbers and the last recorded number is the
/// maximum: every matched line lies between them.
pub proof fn lemma_first_last_extremal(file: Seq<Seq<char>>, query: Seq<Seq<char>>)
    ensures
        forall|k: int|
            0 <= k < spec_matched(file, query).len() ==> spec_matched(file, query)[0]
                <= #[trigger] spec_matched(file, query)[k] <= spec_matched(file, query)[spec_matched(
                file,
                query,
            ).len() - 1],
{
    lemma_matched_sorted(file, query, 0, 0);
    let m = spec_matched(file, query);
    assert forall|k: int| 0 <= k < m.len() implies m[0] <= #[trigger] m[k] <= m[m.len() - 1] by {
        if k > 0 {
            assert(m[0] < m[k]);
        }
        if k < m.len() - 1 {
            assert(m[k] < m[m.len() - 1]);
        }
    }
}

/// The scan is unchanged by skipping an initial stretch of file lines that do
/// not contain the first query line.
proof fn lemma_matched_skip_prefix(file: Seq<Seq<char>>, query: Seq<Seq<char>>, i: int, p: int)
    requires
        0 <= i <= p <= file.len(),
        query.len() > 0,
        forall|j: int| i <= j < p ==> !spec_contains(#[trigger] file[j], query[0]),
    ensures
        matched_from(file, query, i, 0) == matched_from(file, query, p, 0),
    decreases p - i,
{
    if i < p {
        assert(!spec_contains(file[i], query[0]));
        lemma_matched_skip_prefix(file, query, i + 1, p);
    }
}

/// A query whose pending lines are literally the file lines from index `i`
/// on is matched there consecutively.
proof fn lemma_matched_aligned_run(file: Seq<Seq<char>>, query: Seq<Seq<char>>, i: int, q: int)
    requires
        0 <= q <= query.len(),
        0 <= i,
        i + (query.len() - q) <= file.len(),
        forall|k: int| q <= k < query.len() ==> #[trigger] query[k] == file[i + (k - q)],
    ensures
        matched_from(file, query, i, q) =~= Seq::new((query.len() - q) as nat, |k: int| i + 1 + k),
    decreases query.len() - q,
{
    if q < query.len() {
        assert(query[q] == file[i]);
        lemma_contains_self(query[q]);
        assert(spec_contains(file[i], query[q]));
        lemma_matched_aligned_run(file, query, i + 1, q + 1);
    }
}

/// Round trip: a query built from the literal text of file lines `n..=m`
/// (1-based) is matched back exactly onto lines `n` through `m`, provided no
/// earlier file line contains the query's first line (greedy matching would
/// otherwise anchor before `n`).
pub proof fn lemma_round_trip(file: Seq<Seq<char>>, n: int, m: int)
    requires
        1 <= n <= m <= file.len(),
        forall|j: int| 0 <= j < n - 1 ==> !spec_contains(#[trigger] file[j], file[n - 1]),
    ensures
        spec_matched(file, file.subrange(n - 1, m)) =~= Seq::new(
            (m - n + 1) as nat,
            |k: int| n + k,
        ),
{
    let query = file.subrange(n - 1, m);
    assert(query[0] == file[n - 1]);
    lemma_matched_skip_prefix(file, query, 0, n - 1);
    lemma_matched_aligned_run(file, query, n - 1, 0);
}

/// Round trip at the text level: a query string assembled from the literal
/// text of file lines `n..=m` (1-based) resolves back onto exactly those
/// lines, so the first recovered number is `n` and the last is `m`.
///
/// The greedy matcher anchors at the earliest line containing the query's
/// first line, so no earlier file line may contain line `n`; and the excerpt
/// must survive reassembly, so no line of it before the last may end in '\r'
/// (the '\r' would be chopped as part of the rebuilt break) and line `m` may
/// not be empty (a final empty line vanishes, the final break being
/// optional).
pub proof fn lemma_round_trip_text(content: Seq<char>, n: int, m: int)
    requires
        1 <= n <= m <= spec_lines(content).len(),
        forall|j: int|
            0 <= j < n - 1 ==> !spec_contains(
                #[trigger] spec_lines(content)[j],
                spec_lines(content)[n - 1],
            ),
        forall|i: int|
            n - 1 <= i < m - 1 ==> chop_cr(#[trigger] spec_lines(content)[i])
                == spec_lines(content)[i],
        spec_lines(content)[m - 1].len() > 0,
    ensures
        spec_matched(
            spec_lines(content),
            spec_lines(spec_unlines(spec_lines(content).subrange(n - 1, m))),
        ) =~= Seq::new((m - n + 1) as nat, |k: int| n + k),
{
    let file = spec_lines(content);
    let q = file.subrange(n - 1, m);
    lemma_lines_no_break(content);
    assert forall|i: int| 0 <= i < q.len() implies no_line_break(
        #[trigger] q[i],
    ) by {
        assert(q[i] == file[n - 1 + i]);
    }
    assert forall|i: int| 0 <= i < q.len() - 1 implies chop_cr(#[trigger] q[i])
        == q[i] by {
        assert(q[i] == file[n - 1 + i]);
    }
    assert(q[q.len() - 1] == file[m - 1]);
    lemma_lines_unlines(q);
    lemma_round_trip(file, n, m);
}

/// Boundary: a query equal to the entire file matches on line 1 through the
/// last line.
pub proof fn lemma_whole_file(file: Seq<Seq<char>>)
    requires
        file.len() > 0,
    ensures
        spec_matched(file, file) =~= Seq::new(file.len(), |k: int| 1 + k),
{
    assert(file.subrange(0, file.len() as int) =~= file);
    lemma_round_trip(file, 1, file.len() as int);
}

/// Search for `text` in `content` and return the matched line numbers.
///
/// The result is `Ok` exactly when at least one query line was matched; a
/// partial match that records at least one line is deliberately still a
/// success, so that a pasted excerpt with drifted or elided lines keeps a
/// best-effort anchor. Zero matched lines (in particular, empty search text)
/// yield `TextNotFound`.
pub fn search_lines(content: &str, text: &str) -> (r: Result<Vec<usize>, LinkError>)
    ensures
        ({
            let m = spec_matched(spec_lines(content@), spec_lines(text@));
            match r {
                Ok(v) => m.len() > 0 && v@.map_values(|x: usize| x as int) == m,
                Err(e) => m.len() == 0 && e == LinkError::TextNotFound,
            }
        }),
        text@.len() == 0 ==> r == Err::<Vec<usize>, LinkError>(LinkError::TextNotFound),
{
    let file_lines = split_lines(content);
    let query_lines = split_lines(text);
    let nums = match_lines(&file_lines, &query_lines);
    if nums.len() == 0 {
        Err(LinkError::TextNotFound)
    } else {
        Ok(nums)
    }
}

/// The resolved output of a line query: a first line and, when the range has
/// two distinct ends, a last line. When the matcher produced it, `last` is
/// absent or greater than `first`.
#[derive(Clone, Copy, Debug)]
pub struct LineRangeResult {
    pub first: usize,
    pub last: Option<usize>,
}

/// Collapse a non-empty list of matched line numbers into its range: the
/// earliest number, and the latest when more than one line was recorded.
pub fn range_of_matches(nums: &Vec<usize>) -> (r: LineRangeResult)
    requires
        nums@.len() > 0,
    ensures
        r.first == nums@[0],
        r.last == (if nums@.len() > 1 {
            Some(nums@[nums@.len() - 1])
        } else {
            None::<usize>
        }),
{
    let first = nums[0];
    let last = if nums.len() > 1 {
        Some(nums[nums.len() - 1])
    } else {
        None
    };
    LineRangeResult { first, last }
}

/// Resolve an anchor choice to a concrete line range.
///
/// No anchor yields no range; explicit line numbers are passed through
/// without any file access; a text search runs the sequential subsequence
/// matcher over the file's text, which must have been supplied.
pub fn locate_range(opts: &LinkOptions, file_text: Option<&str>) -> (r: Result<
    Option<LineRangeResult>,
    LinkError,
>)
    ensures
        match *opts {
            LinkOptions::Empty => r == Ok::<Option<LineRangeResult>, LinkError>(
                None::<LineRangeResult>,
            ),
            LinkOptions::Lines(l1, l2) => r matches Ok(Some(rr)) && rr.first == l1 && rr.last
                == l2,
            LinkOptions::Search(s) => (match file_text {
                None => r == Err::<Option<LineRangeResult>, LinkError>(LinkError::Io),
                Some(c) => ({
                    let m = spec_matched(spec_lines(c@), spec_lines(s@));
                    match r {
                        Ok(Some(rr)) => m.len() > 0 && rr.first as int == m[0] && (match rr.last {
                            Some(l) => m.len() > 1 && l as int == m[m.len() - 1] && rr.first < l,
                            None => m.len() == 1,
                        }),
                        Ok(None) => false,
                        Err(e) => m.len() == 0 && e == LinkError::TextNotFound,
                    }
                }),
            }),
        },
{
    match opts {
        LinkOptions::Empty => Ok(None),
        LinkOptions::Lines(l1, l2) => Ok(
            Some(LineRangeResult { first: *l1, last: *l2 }),
        ),
        LinkOptions::Search(s) => {
            match file_text {
                None => Err(LinkError::Io),
                Some(c) => {
                    let nums = search_lines(c, s.as_str())?;
                    proof {
                        let m = spec_matched(spec_lines(c@), spec_lines(s@));
                        lemma_matched_sorted(spec_lines(c@), spec_lines(s@), 0, 0);
                        if m.len() > 1 {
                            assert(m[0] < m[m.len() - 1]);
                        }
                    }
                    Ok(Some(range_of_matches(&nums)))
                },
            }
        },
    }
}

} // verus!
