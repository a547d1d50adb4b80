//! Substring matching: the ground truth for which lines a search emits.

use vstd::prelude::*;

verus! {

/// The pattern `pat` occurs in `line` starting at character position `i`.
pub open spec fn match_at(line: Seq<char>, pat: Seq<char>, i: int) -> bool {
    0 <= i && i + pat.len() <= line.len() && line.subrange(i, i + pat.len() as int) == pat
}

/// The pattern `pat` occurs somewhere in `line` as a contiguous substring
/// (case-sensitive, codepoint-exact, no normalization).
pub open spec fn line_contains(line: Seq<char>, pat: Seq<char>) -> bool {
    exists|i: int| match_at(line, pat, i)
}

/// Whether `pattern` occurs at character position `i` of `line`.
fn matches_at_index(line: &str, pattern: &str, i: usize) -> (r: bool)
    requires
        i + pattern@.len() <= line@.len(),
    ensures
        r == match_at(line@, pattern@, i as int),
{
    let n: usize = line.unicode_len();
    let m: usize = pattern.unicode_len();
    let mut j: usize = 0;
    while j < m
        invariant
            n == line@.len(),
            m == pattern@.len(),
            i + m <= n,
            0 <= j <= m,
            forall|k: int| 0 <= k < j ==> line@[i + k] == pattern@[k],
        decreases m - j,
    {
        if line.get_char(i + j) != pattern.get_char(j) {
            proof {
                assert(line@.subrange(i as int, i + m as int)[j as int] == line@[i + j]);
            }
            return false;
        }
        j += 1;
    }
    proof {
        assert(line@.subrange(i as int, i + m as int) =~= pattern@);
    }
    true
}

/// Decides whether `pattern` occurs anywhere in `line` as a contiguous
/// substring. The empty pattern occurs in every line.
pub fn contains_pattern(line: &str, pattern: &str) -> (r: bool)
    ensures
        r == line_contains(line@, pattern@),
{
    let n: usize = line.unicode_len();
    let m: usize = pattern.unicode_len();
    if m > n {
        return false;
    }
    if m == 0 {
        proof {
            assert(line@.subrange(0, 0) =~= pattern@);
            assert(match_at(line@, pattern@, 0));
        }
        return true;
    }
    let mut i: usize = 0;
    while i <= n - m
        invariant
            n == line@.len(),
            m == pattern@.len(),
            1 <= m <= n,
            0 <= i <= n - m + 1,
            forall|k: int| 0 <= k < i ==> !match_at(line@, pattern@, k),
        decreases n - m + 1 - i,
    {
        if matches_at_index(line, pattern, i) {
            return true;
        }
        i += 1;
    }
    false
}

/// The views of a sequence of owned lines.
pub open spec fn line_views(lines: Seq<String>) -> Seq<Seq<char>> {
    lines.map_values(|l: String| l@)
}

/// The subsequence of `lines` whose members contain `pat`, in their original
/// order: the ground truth for what a search over those lines emits.
pub open spec fn matching_lines(lines: Seq<Seq<char>>, pat: Seq<char>) -> Seq<Seq<char>> {
    lines.filter(|l: Seq<char>| line_contains(l, pat))
}

/// Appending one line extends the matching subsequence by exactly that line
/// when it contains the pattern, and leaves it unchanged otherwise.
pub proof fn lemma_matching_lines_push(lines: Seq<Seq<char>>, pat: Seq<char>, x: Seq<char>)
    ensures
        matching_lines(lines.push(x), pat) == (if line_contains(x, pat) {
            matching_lines(lines, pat).push(x)
        } else {
            matching_lines(lines, pat)
        }),
{
    reveal(Seq::filter);
    assert(lines.push(x).drop_last() =~= lines);
    assert(lines.push(x).last() == x);
}

/// Returns exactly the lines that contain `pattern`, in their original order,
/// each unaltered; no line is returned more than once.
pub fn find_matching_lines(pattern: &str, lines: &Vec<String>) -> (r: Vec<String>)
    ensures
        line_views(r@) == matching_lines(line_views(lines@), pattern@),
{
    let mut result: Vec<String> = Vec::new();
    let mut idx: usize = 0;
    while idx < lines.len()
        invariant
            idx <= lines@.len(),
            line_views(result@) == matching_lines(line_views(lines@).subrange(0, idx as int), pattern@),
        decreases lines@.len() - idx,
    {
        let ghost prefix = line_views(lines@).subrange(0, idx as int);
        let ghost before = result@;
        let line: &String = &lines[idx];
        if contains_pattern(line.as_str(), pattern) {
            result.push(String::from_str(line.as_str()));
            proof {
                assert(line_views(result@) =~= line_views(before).push(line@));
            }
        }
        proof {
            lemma_matching_lines_push(prefix, pattern@, line@);
            assert(line_views(lines@).subrange(0, idx + 1) =~= prefix.push(line@));
        }
        idx += 1;
    }
    proof {
        assert(line_views(lines@).subrange(0, lines@.len() as int) =~= line_views(lines@));
    }
    result
}

} // verus!
