use vstd::prelude::*;

use crate::search::LineRangeResult;

verus! {

// ---------------------------------------------------------------------------
// URL assembly
//
// The output format is fixed and must be treated as bit-exact:
// `https://{host}/{repo_path}/blob/{commit}/{relative_path}`, followed by
// `#L{first}` when a range is present and `-L{last}` when it has two ends.
// ---------------------------------------------------------------------------
/// The decimal digit character for `d`.
pub open spec fn digit_char(d: int) -> char {
    if d == 0 {
        '0'
    } else if d == 1 {
        '1'
    } else if d == 2 {
        '2'
    } else if d == 3 {
        '3'
    } else if d == 4 {
        '4'
    } else if d == 5 {
        '5'
    } else if d == 6 {
        '6'
    } else if d == 7 {
        '7'
    } else if d == 8 {
        '8'
    } else {
        '9'
    }
}

/// The decimal spelling of `n`, most significant digit first.
pub open spec fn spec_dec(n: nat) -> Seq<char>
    decreases n,
{
    if n < 10 {
        seq![digit_char(n as int)]
    } else {
        spec_dec((n / 10) as nat) + seq![digit_char((n % 10) as int)]
    }
}

/// The one-character string for decimal digit `d`.
fn digit_str(d: usize) -> (s: &'static str)
    requires
        d < 10,
    ensures
        s@ == seq![digit_char(d as int)],
{
    proof {
        reveal_strlit("0");
        reveal_strlit("1");
        reveal_strlit("2");
        reveal_strlit("3");
        reveal_strlit("4");
        reveal_strlit("5");
        reveal_strlit("6");
        reveal_strlit("7");
        reveal_strlit("8");
        reveal_strlit("9");
    }
    match d {
        0 => "0",
        1 => "1",
        2 => "2",
        3 => "3",
        4 => "4",
        5 => "5",
        6 => "6",
        7 => "7",
        8 => "8",
        _ => "9",
    }
}

/// Render `n` in decimal.
pub fn usize_to_string(n: usize) -> (s: String)
    ensures
        s@ == spec_dec(n as nat),
    decreases n,
{
    if n < 10 {
        String::from_str(digit_str(n))
    } else {
        let mut s = usize_to_string(n / 10);
        s.append(digit_str(n % 10));
        s
    }
}

/// The commit-pinned blob URL for a file, before any line fragment.
pub open spec fn spec_base_url(
    host: Seq<char>,
    repo_path: Seq<char>,
    commit: Seq<char>,
    rel_path: Seq<char>,
) -> Seq<char> {
    "https://"@ + host + "/"@ + repo_path + "/blob/"@ + commit + "/"@ + rel_path
}

/// Build the base blob URL.
pub fn base_url(host: &str, repo_path: &str, commit: &str, rel_path: &str) -> (s: String)
    ensures
        s@ == spec_base_url(host@, repo_path@, commit@, rel_path@),
{
    let mut s = String::from_str("https://");
    s.append(host);
    s.append("/");
    s.append(repo_path);
    s.append("/blob/");
    s.append(commit);
    s.append("/");
    s.append(rel_path);
    proof {
        assert(s@ =~= spec_base_url(host@, repo_path@, commit@, rel_path@));
    }
    s
}

/// The `#L{first}` or `#L{first}-L{last}` fragment for a resolved range.
pub open spec fn spec_fragment(first: nat, last: Option<nat>) -> Seq<char> {
    match last {
        None => "#L"@ + spec_dec(first),
        Some(l) => "#L"@ + spec_dec(first) + "-L"@ + spec_dec(l),
    }
}

/// Build the line fragment for a resolved range.
pub fn fragment(range: &LineRangeResult) -> (s: String)
    ensures
        s@ == spec_fragment(
            range.first as nat,
            match range.last {
                Some(l) => Some(l as nat),
                None => None::<nat>,
            },
        ),
{
    let mut s = String::from_str("#L");
    let first_digits = usize_to_string(range.first);
    s.append(first_digits.as_str());
    match range.last {
        Some(l) => {
            s.append("-L");
            let last_digits = usize_to_string(l);
            s.append(last_digits.as_str());
            proof {
                assert(s@ =~= spec_fragment(range.first as nat, Some(l as nat)));
            }
        },
        None => {
            proof {
                assert(s@ =~= spec_fragment(range.first as nat, None::<nat>));
            }
        },
    }
    s
}

/// How the platform joins a relative prefix with a caller-supplied path: an
/// absolute path replaces the prefix; an empty prefix leaves the path as it
/// is; otherwise a '/' separator is inserted unless one is already there.
pub open spec fn spec_join(prefix: Seq<char>, path: Seq<char>) -> Seq<char> {
    if path.len() > 0 && path[0] == '/' {
        path
    } else if prefix.len() == 0 {
        path
    } else if prefix.last() == '/' {
        prefix + path
    } else {
        prefix + "/"@ + path
    }
}

/// Join the repository-relative prefix with the target path.
pub fn join_paths(prefix: &str, path: &str) -> (s: String)
    ensures
        s@ == spec_join(prefix@, path@),
{
    let plen = path.unicode_len();
    let prelen = prefix.unicode_len();
    if plen > 0 && path.get_char(0) == '/' {
        String::from_str(path)
    } else if prelen == 0 {
        String::from_str(path)
    } else if prefix.get_char(prelen - 1) == '/' {
        let mut s = String::from_str(prefix);
        s.append(path);
        s
    } else {
        let mut s = String::from_str(prefix);
        s.append("/");
        s.append(path);
        proof {
            assert(s@ =~= prefix@ + "/"@ + path@);
        }
        s
    }
}

} // verus!
