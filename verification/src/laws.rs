//! The laws the filter obeys, stated and proved once for all inputs.

use vstd::prelude::*;

use crate::matching::line_contains;
use crate::matching::lemma_matching_lines_push;
use crate::matching::match_at;
use crate::matching::matching_lines;
use crate::output::rendered;

verus! {

/// The empty pattern matches every line: the filter then emits all of the
/// lines, in their original order.
pub proof fn lemma_empty_pattern_emits_all(lines: Seq<Seq<char>>)
    ensures
        matching_lines(lines, Seq::<char>::empty()) == lines,
    decreases lines.len(),
{
    reveal(Seq::filter);
    if lines.len() == 0 {
        assert(matching_lines(lines, Seq::<char>::empty()) =~= lines);
    } else {
        lemma_empty_pattern_emits_all(lines.drop_last());
        assert(match_at(lines.last(), Seq::<char>::empty(), 0)) by {
            assert(lines.last().subrange(0, 0) =~= Seq::<char>::empty());
        }
        assert(matching_lines(lines, Seq::<char>::empty()) =~= lines);
    }
}

/// A pattern longer than every line matches nothing: the filter emits no
/// lines at all, successfully.
pub proof fn lemma_long_pattern_emits_none(lines: Seq<Seq<char>>, pat: Seq<char>)
    requires
        forall|j: int| 0 <= j < lines.len() ==> (#[trigger] lines[j]).len() < pat.len(),
    ensures
        matching_lines(lines, pat) == Seq::<Seq<char>>::empty(),
    decreases lines.len(),
{
    reveal(Seq::filter);
    if lines.len() == 0 {
        assert(matching_lines(lines, pat) =~= Seq::<Seq<char>>::empty());
    } else {
        lemma_long_pattern_emits_none(lines.drop_last(), pat);
        assert(forall|i: int| !match_at(lines.last(), pat, i));
        assert(!line_contains(lines.last(), pat));
    }
}

/// Every line the filter emits contains the pattern and is one of the lines
/// searched; nothing else is ever emitted.
pub proof fn lemma_emitted_lines_match(lines: Seq<Seq<char>>, pat: Seq<char>, i: int)
    requires
        0 <= i < matching_lines(lines, pat).len(),
    ensures
        line_contains(matching_lines(lines, pat)[i], pat),
        lines.contains(matching_lines(lines, pat)[i]),
    decreases lines.len(),
{
    if lines.len() == 0 {
        reveal(Seq::filter);
        assert(false);
    } else {
        let prev = lines.drop_last();
        let last = lines.last();
        assert(lines =~= prev.push(last));
        lemma_matching_lines_push(prev, pat, last);
        let m = matching_lines(lines, pat);
        let mp = matching_lines(prev, pat);
        if line_contains(last, pat) && i == m.len() - 1 {
            assert(m[i] == last);
            assert(lines[lines.len() - 1] == last);
        } else {
            lemma_emitted_lines_match(prev, pat, i);
            assert(m[i] == mp[i]);
            let j = choose|j: int| 0 <= j < prev.len() && prev[j] == mp[i];
            assert(lines[j] == mp[i]);
        }
    }
}

/// Every line searched that contains the pattern is emitted: nothing that
/// matches is ever dropped.
pub proof fn lemma_matching_line_is_emitted(lines: Seq<Seq<char>>, pat: Seq<char>, j: int)
    requires
        0 <= j < lines.len(),
        line_contains(lines[j], pat),
    ensures
        matching_lines(lines, pat).contains(lines[j]),
    decreases lines.len(),
{
    let prev = lines.drop_last();
    let last = lines.last();
    assert(lines =~= prev.push(last));
    lemma_matching_lines_push(prev, pat, last);
    let m = matching_lines(lines, pat);
    if j == lines.len() - 1 {
        assert(m[m.len() - 1] == last);
    } else {
        lemma_matching_line_is_emitted(prev, pat, j);
        let mp = matching_lines(prev, pat);
        let k = choose|k: int| 0 <= k < mp.len() && mp[k] == prev[j];
        assert(m[k] == lines[j]);
    }
}

/// What the filter emits is a function of the searched lines and the pattern
/// alone: two runs over the same lines with the same pattern emit the same
/// lines and render the same output text, whichever dispatch style makes the
/// calls and however often the search is repeated.
pub proof fn lemma_emitted_output_deterministic(
    lines: Seq<Seq<char>>,
    pat: Seq<char>,
    first: Seq<Seq<char>>,
    second: Seq<Seq<char>>,
)
    requires
        first == matching_lines(lines, pat),
        second == matching_lines(lines, pat),
    ensures
        first == second,
        rendered(first) == rendered(second),
{
}

} // verus!
