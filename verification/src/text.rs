use vstd::prelude::*;

verus! {

// ---------------------------------------------------------------------------
// Splitting text into lines
//
// A line break is a '\n'; a '\r' immediately before a '\n' belongs to the
// break and is dropped. The final line break is optional: text that does not
// end with '\n' contributes its trailing characters as a last line, and empty
// text has no lines at all.
// ---------------------------------------------------------------------------
/// Index of the first '\n' in `s`, or `s.len()` if there is none.
pub open spec fn first_nl(s: Seq<char>) -> int
    decreases s.len(),
{
    if s.len() == 0 {
        0
    } else if s[0] == '\n' {
        0
    } else {
        1 + first_nl(s.skip(1))
    }
}

pub proof fn lemma_first_nl(s: Seq<char>)
    ensures
        0 <= first_nl(s) <= s.len(),
        first_nl(s) < s.len() ==> s[first_nl(s)] == '\n',
        forall|j: int| 0 <= j < first_nl(s) ==> s[j] != '\n',
    decreases s.len(),
{
    if s.len() == 0 {
    } else if s[0] == '\n' {
    } else {
        lemma_first_nl(s.skip(1));
        assert forall|j: int| 0 <= j < first_nl(s) implies s[j] != '\n' by {
            if j > 0 {
                assert(s.skip(1)[j - 1] == s[j]);
            }
        }
    }
}

/// `first_nl` is pinned down by the position of the first '\n'.
pub proof fn lemma_first_nl_at(s: Seq<char>, k: int)
    requires
        0 <= k <= s.len(),
        k < s.len() ==> s[k] == '\n',
        forall|j: int| 0 <= j < k ==> s[j] != '\n',
    ensures
        first_nl(s) == k,
    decreases s.len(),
{
    if s.len() == 0 {
    } else if s[0] == '\n' {
        assert(k == 0);
    } else {
        assert(k != 0);
        assert forall|j: int| 0 <= j < k - 1 implies s.skip(1)[j] != '\n' by {
            assert(s.skip(1)[j] == s[j + 1]);
        }
        if k - 1 < s.skip(1).len() {
            assert(s.skip(1)[k - 1] == s[k]);
        }
        lemma_first_nl_at(s.skip(1), k - 1);
    }
}

/// Drop a single trailing '\r', as part of a "\r\n" line break.
pub open spec fn chop_cr(line: Seq<char>) -> Seq<char> {
    if line.len() > 0 && line.last() == '\r' {
        line.drop_last()
    } else {
        line
    }
}

/// The lines of `s`, split on '\n' with "\r\n" treated as one break.
pub open spec fn spec_lines(s: Seq<char>) -> Seq<Seq<char>>
    decreases s.len(),
{
    if s.len() == 0 {
        seq![]
    } else {
        let k = first_nl(s);
        if 0 <= k < s.len() {
            seq![chop_cr(s.take(k))] + spec_lines(s.skip(k + 1))
        } else {
            seq![s]
        }
    }
}

/// The views of a vector of owned lines.
pub open spec fn line_views(v: Seq<String>) -> Seq<Seq<char>> {
    v.map_values(|l: String| l@)
}

/// Position of the first '\n' in `s` at or after `from`, or `s@.len()` if
/// there is none.
fn find_nl(s: &str, from: usize, n: usize) -> (k: usize)
    requires
        n == s@.len(),
        from <= n,
    ensures
        from <= k <= n,
        k - from == first_nl(s@.skip(from as int)),
        k < n ==> s@[k as int] == '\n',
        forall|j: int| from <= j < k ==> s@[j] != '\n',
{
    let mut i: usize = from;
    loop
        invariant
            from <= i <= n,
            n == s@.len(),
            forall|j: int| from <= j < i ==> s@[j] != '\n',
        ensures
            from <= i <= n,
            i < n ==> s@[i as int] == '\n',
            forall|j: int| from <= j < i ==> s@[j] != '\n',
        decreases n - i,
    {
        if i == n {
            break ;
        }
        if s.get_char(i) == '\n' {
            break ;
        }
        i = i + 1;
    }
    proof {
        let t = s@.skip(from as int);
        assert forall|j: int| 0 <= j < i - from implies t[j] != '\n' by {
            assert(t[j] == s@[j + from]);
        }
        if i - from < t.len() {
            assert(t[i - from] == s@[i as int]);
        }
        lemma_first_nl_at(t, i - from);
    }
    i
}

/// Split `s` into its lines, exactly as [`spec_lines`] describes.
pub fn split_lines(s: &str) -> (r: Vec<String>)
    ensures
        line_views(r@) == spec_lines(s@),
{
    let n = s.unicode_len();
    let mut r: Vec<String> = Vec::new();
    let mut pos: usize = 0;
    proof {
        assert(s@.skip(0) =~= s@);
        assert(line_views(r@) + spec_lines(s@.skip(0)) =~= spec_lines(s@));
    }
    while pos < n
        invariant
            pos <= n,
            n == s@.len(),
            spec_lines(s@) =~= line_views(r@) + spec_lines(s@.skip(pos as int)),
        decreases n - pos,
    {
        let ghost t = s@.skip(pos as int);
        let ghost r_old = r@;
        let k = find_nl(s, pos, n);
        proof {
            assert forall|j: int| 0 <= j < k - pos implies t[j] != '\n' by {
                assert(t[j] == s@[j + pos]);
            }
            if k < n {
                assert(t[k - pos] == s@[k as int]);
            }
            lemma_first_nl_at(t, k - pos);
        }
        if k < n {
            let end = if k > pos && s.get_char(k - 1) == '\r' {
                k - 1
            } else {
                k
            };
            let line = String::from_str(s.substring_char(pos, end));
            r.push(line);
            proof {
                assert(t.take(k - pos) =~= s@.subrange(pos as int, k as int));
                if k > pos && s@[k - 1] == '\r' {
                    assert(t.take(k - pos).last() == s@[k - 1]);
                    assert(chop_cr(t.take(k - pos)) =~= s@.subrange(pos as int, end as int));
                } else {
                    if k > pos {
                        assert(t.take(k - pos).last() == s@[k - 1]);
                    }
                    assert(chop_cr(t.take(k - pos)) =~= s@.subrange(pos as int, end as int));
                }
                assert(line@ == chop_cr(t.take(k - pos)));
                assert(t.skip(k - pos + 1) =~= s@.skip(k + 1));
                assert(spec_lines(t) == seq![line@] + spec_lines(s@.skip(k + 1)));
                assert(line_views(r@) =~= line_views(r_old).push(line@));
                assert(line_views(r@) + spec_lines(s@.skip(k + 1)) =~= line_views(r_old) + (
                seq![line@] + spec_lines(s@.skip(k + 1))));
            }
            pos = k + 1;
        } else {
            let line = String::from_str(s.substring_char(pos, n));
            r.push(line);
            proof {
                assert(first_nl(t) == t.len());
                assert(t =~= s@.subrange(pos as int, n as int));
                assert(line@ == t);
                assert(spec_lines(t) == seq![line@]);
                assert(line_views(r@) =~= line_views(r_old).push(line@));
                assert(s@.skip(n as int) =~= Seq::<char>::empty());
                assert(line_views(r@) + spec_lines(s@.skip(n as int)) =~= line_views(r_old) + seq![
                    line@,
                ]);
            }
            pos = n;
        }
    }
    proof {
        assert(s@.skip(n as int) =~= Seq::<char>::empty());
        assert(line_views(r@) + spec_lines(s@.skip(n as int)) =~= line_views(r@));
    }
    r
}

/// `l` holds no line break of its own.
pub open spec fn no_line_break(l: Seq<char>) -> bool {
    forall|j: int| 0 <= j < l.len() ==> l[j] != '\n'
}

/// Every line produced by [`spec_lines`] is free of line breaks.
pub proof fn lemma_lines_no_break(s: Seq<char>)
    ensures
        forall|i: int|
            0 <= i < spec_lines(s).len() ==> no_line_break(#[trigger] spec_lines(s)[i]),
    decreases s.len(),
{
    if s.len() == 0 {
    } else {
        let k = first_nl(s);
        lemma_first_nl(s);
        if 0 <= k < s.len() {
            lemma_lines_no_break(s.skip(k + 1));
            assert forall|i: int|
                0 <= i < spec_lines(s).len() implies no_line_break(
                #[trigger] spec_lines(s)[i],
            ) by {
                if i == 0 {
                    let line = spec_lines(s)[0];
                    assert(line == chop_cr(s.take(k)));
                    assert forall|j: int| 0 <= j < line.len() implies line[j] != '\n' by {
                        assert(line[j] == s.take(k)[j]);
                        assert(s.take(k)[j] == s[j]);
                    }
                } else {
                    assert(spec_lines(s)[i] == spec_lines(s.skip(k + 1))[i - 1]);
                }
            }
        } else {
            assert forall|i: int|
                0 <= i < spec_lines(s).len() implies no_line_break(
                #[trigger] spec_lines(s)[i],
            ) by {
                assert(spec_lines(s)[i] == s);
            }
        }
    }
}

/// The text of `lines` joined back together with '\n' separators and no
/// final line break.
pub open spec fn spec_unlines(lines: Seq<Seq<char>>) -> Seq<char>
    decreases lines.len(),
{
    if lines.len() == 0 {
        Seq::empty()
    } else if lines.len() == 1 {
        lines[0]
    } else {
        lines[0] + seq!['\n'] + spec_unlines(lines.drop_first())
    }
}

/// Splitting joined lines gives the lines back, provided none holds a line
/// break of its own, no line before the last ends in '\r' (the '\r' would be
/// chopped as part of the reassembled break), and the last line is non-empty
/// (an empty final line would vanish, the final line break being optional).
pub proof fn lemma_lines_unlines(lines: Seq<Seq<char>>)
    requires
        lines.len() > 0,
        forall|i: int| 0 <= i < lines.len() ==> no_line_break(#[trigger] lines[i]),
        forall|i: int| 0 <= i < lines.len() - 1 ==> chop_cr(#[trigger] lines[i]) == lines[i],
        lines[lines.len() - 1].len() > 0,
    ensures
        spec_lines(spec_unlines(lines)) =~= lines,
    decreases lines.len(),
{
    let s = spec_unlines(lines);
    if lines.len() == 1 {
        assert(s == lines[0]);
        lemma_first_nl_at(s, s.len() as int);
        assert(spec_lines(s) =~= seq![lines[0]]);
        assert(seq![lines[0]] =~= lines);
    } else {
        let l0 = lines[0];
        let rest = lines.drop_first();
        let tail = spec_unlines(rest);
        assert(s == l0 + seq!['\n'] + tail);
        assert forall|j: int| 0 <= j < l0.len() implies s[j] != '\n' by {
            assert(s[j] == l0[j]);
        }
        assert(s[l0.len() as int] == '\n');
        lemma_first_nl_at(s, l0.len() as int);
        assert(s.take(l0.len() as int) =~= l0);
        assert(chop_cr(l0) == l0);
        assert(s.skip(l0.len() as int + 1) =~= tail);
        assert forall|i: int| 0 <= i < rest.len() implies no_line_break(#[trigger] rest[i]) by {
            assert(rest[i] == lines[i + 1]);
        }
        assert forall|i: int| 0 <= i < rest.len() - 1 implies chop_cr(#[trigger] rest[i])
            == rest[i] by {
            assert(rest[i] == lines[i + 1]);
        }
        assert(rest[rest.len() - 1] == lines[lines.len() - 1]);
        lemma_lines_unlines(rest);
        assert(spec_lines(s) =~= seq![l0] + rest);
        assert(seq![l0] + rest =~= lines);
    }
}

// ---------------------------------------------------------------------------
// Substring containment
// ---------------------------------------------------------------------------
/// `needle` occurs in `hay` starting at position `i`.
pub open spec fn contains_at(hay: Seq<char>, needle: Seq<char>, i: int) -> bool {
    0 <= i && i + needle.len() <= hay.len() && hay.subrange(i, i + needle.len()) == needle
}

/// `needle` occurs somewhere in `hay`; an empty needle occurs everywhere.
pub open spec fn spec_contains(hay: Seq<char>, needle: Seq<char>) -> bool {
    exists|i: int| contains_at(hay, needle, i)
}

/// Every sequence contains itself.
pub proof fn lemma_contains_self(s: Seq<char>)
    ensures
        spec_contains(s, s),
{
    assert(s.subrange(0, s.len() as int) =~= s);
    assert(contains_at(s, s, 0));
}

/// Substring test: does `needle` occur anywhere in `hay`?
pub fn str_contains(hay: &str, needle: &str) -> (b: bool)
    ensures
        b == spec_contains(hay@, needle@),
{
    let h = hay.unicode_len();
    let m = needle.unicode_len();
    if m == 0 {
        proof {
            assert(hay@.subrange(0, 0) =~= needle@);
            assert(contains_at(hay@, needle@, 0));
        }
        return true;
    }
    if m > h {
        proof {
            assert forall|i: int| !contains_at(hay@, needle@, i) by {}
        }
        return false;
    }
    let mut i: usize = 0;
    while i <= h - m
        invariant
            1 <= m <= h,
            h == hay@.len(),
            m == needle@.len(),
            i <= h - m + 1,
            forall|ii: int| 0 <= ii < i ==> !contains_at(hay@, needle@, ii),
        decreases h - m + 1 - i,
    {
        let mut j: usize = 0;
        let mut ok = true;
        while j < m && ok
            invariant
                j <= m,
                i + m <= h,
                h == hay@.len(),
                m == needle@.len(),
                ok ==> forall|jj: int| 0 <= jj < j ==> hay@[i + jj] == needle@[jj],
                !ok ==> !contains_at(hay@, needle@, i as int),
            decreases m - j,
        {
            if hay.get_char(i + j) != needle.get_char(j) {
                proof {
                    assert(hay@.subrange(i as int, i + m)[j as int] == hay@[i + j]);
                }
                ok = false;
            }
            j = j + 1;
        }
        if ok {
            proof {
                assert(hay@.subrange(i as int, i + m) =~= needle@);
                assert(contains_at(hay@, needle@, i as int));
            }
            return true;
        }
        i = i + 1;
    }
    proof {
        assert forall|ii: int| !contains_at(hay@, needle@, ii) by {
            if 0 <= ii < i {
            }
        }
    }
    false
}

} // verus!
