//! Output sinks and the emission of matching lines to them.

use vstd::prelude::*;

use crate::matching::contains_pattern;
use crate::matching::line_views;
use crate::matching::lemma_matching_lines_push;
use crate::matching::matching_lines;
use crate::request::SearchError;

verus! {

/// A destination that accepts text lines one at a time, in order. The filter
/// borrows a sink for the duration of one run; it never closes it.
///
/// `emitted` is the sequence of lines the sink has accepted so far. A sink
/// may refuse a line (a closed pipe, a full disk); it then reports a cause
/// and leaves what it already accepted unchanged.
pub trait Sink {
    spec fn emitted(&self) -> Seq<Seq<char>>;

    fn accept_line(&mut self, line: &str) -> (r: Result<(), String>)
        ensures
            r is Ok ==> final(self).emitted() == old(self).emitted().push(line@),
            r is Err ==> final(self).emitted() == old(self).emitted(),
    ;
}

/// An in-memory sink: collects every accepted line and never refuses one.
pub struct BufferSink {
    pub collected: Vec<String>,
}

impl Sink for BufferSink {
    open spec fn emitted(&self) -> Seq<Seq<char>> {
        line_views(self.collected@)
    }

    fn accept_line(&mut self, line: &str) -> (r: Result<(), String>)
        ensures
            r is Ok,
    {
        let ghost before = self.collected@;
        self.collected.push(String::from_str(line));
        proof {
            assert(line_views(self.collected@) =~= line_views(before).push(line@));
        }
        Ok(())
    }
}

/// The matches found in a prefix of the lines are a prefix of the matches
/// found in all of them.
pub proof fn lemma_matching_lines_prefix(lines: Seq<Seq<char>>, pat: Seq<char>, i: int)
    requires
        0 <= i <= lines.len(),
    ensures
        matching_lines(lines.subrange(0, i), pat).len() <= matching_lines(lines, pat).len(),
        matching_lines(lines.subrange(0, i), pat) == matching_lines(lines, pat).subrange(
            0,
            matching_lines(lines.subrange(0, i), pat).len() as int,
        ),
    decreases lines.len() - i,
{
    let a = matching_lines(lines.subrange(0, i), pat);
    let f = matching_lines(lines, pat);
    if i == lines.len() {
        assert(lines.subrange(0, i) =~= lines);
        assert(a =~= f.subrange(0, a.len() as int));
    } else {
        lemma_matching_lines_prefix(lines, pat, i + 1);
        let b = matching_lines(lines.subrange(0, i + 1), pat);
        assert(lines.subrange(0, i + 1) =~= lines.subrange(0, i).push(lines[i]));
        lemma_matching_lines_push(lines.subrange(0, i), pat, lines[i]);
        assert(forall|j: int| 0 <= j < a.len() ==> a[j] == b[j]);
        assert(a =~= f.subrange(0, a.len() as int));
    }
}

/// Writes to `sink`, in order, exactly those lines of `lines` that contain
/// `pattern`, each unaltered and none more than once. The sink is asked to
/// accept only matching lines, so when nothing matches the run cannot fail.
/// On the first refused write it stops with a `Write` error; the lines
/// accepted by then are exactly the matches found so far, a strict prefix of
/// all the matching lines (the refused line itself was a match).
pub fn emit_matches<S: Sink>(pattern: &str, lines: &Vec<String>, sink: &mut S) -> (r: Result<
    (),
    SearchError,
>)
    ensures
        r is Ok ==> final(sink).emitted() == old(sink).emitted() + matching_lines(
            line_views(lines@),
            pattern@,
        ),
        r matches Err(e) ==> e is Write,
        r is Err ==> exists|k: int|
            0 <= k < matching_lines(line_views(lines@), pattern@).len() && final(sink).emitted()
                == old(sink).emitted() + matching_lines(line_views(lines@), pattern@).subrange(
                0,
                k,
            ),
        matching_lines(line_views(lines@), pattern@).len() == 0 ==> r is Ok,
{
    let mut idx: usize = 0;
    while idx < lines.len()
        invariant
            idx <= lines@.len(),
            sink.emitted() == old(sink).emitted() + matching_lines(
                line_views(lines@).subrange(0, idx as int),
                pattern@,
            ),
        decreases lines@.len() - idx,
    {
        let ghost prefix = line_views(lines@).subrange(0, idx as int);
        let line: &String = &lines[idx];
        let is_match = contains_pattern(line.as_str(), pattern);
        proof {
            lemma_matching_lines_push(prefix, pattern@, line@);
            assert(line_views(lines@).subrange(0, idx + 1) =~= prefix.push(line@));
        }
        if is_match {
            match sink.accept_line(line.as_str()) {
                Ok(()) => {},
                Err(cause) => {
                    proof {
                        lemma_matching_lines_prefix(line_views(lines@), pattern@, idx as int);
                        lemma_matching_lines_prefix(line_views(lines@), pattern@, idx + 1);
                    }
                    return Err(SearchError::Write { cause });
                },
            }
        }
        idx += 1;
    }
    proof {
        assert(line_views(lines@).subrange(0, lines@.len() as int) =~= line_views(lines@));
    }
    Ok(())
}

/// The text a sequence of emitted lines produces on the output: each line in
/// order, each followed by a single newline.
pub open spec fn rendered(lines: Seq<Seq<char>>) -> Seq<char>
    decreases lines.len(),
{
    if lines.len() == 0 {
        Seq::<char>::empty()
    } else {
        rendered(lines.drop_last()) + lines.last() + seq!['\n']
    }
}

/// Rendering one more line appends that line and a newline to the text.
pub proof fn lemma_rendered_push(lines: Seq<Seq<char>>, x: Seq<char>)
    ensures
        rendered(lines.push(x)) == rendered(lines) + x + seq!['\n'],
{
    assert(lines.push(x).drop_last() =~= lines);
    assert(lines.push(x).last() == x);
}

/// Joins lines into the exact text that emitting them produces: each line in
/// order, each followed by a single newline; the empty sequence of lines
/// renders as the empty text.
pub fn render_lines(lines: &Vec<String>) -> (r: String)
    ensures
        r@ == rendered(line_views(lines@)),
{
    let mut out: String = String::new();
    let mut idx: usize = 0;
    proof {
        reveal_strlit("\n");
    }
    while idx < lines.len()
        invariant
            idx <= lines@.len(),
            out@ == rendered(line_views(lines@).subrange(0, idx as int)),
            "\n"@ =~= seq!['\n'],
        decreases lines@.len() - idx,
    {
        let ghost prefix = line_views(lines@).subrange(0, idx as int);
        let line: &String = &lines[idx];
        out.append(line.as_str());
        out.append("\n");
        proof {
            lemma_rendered_push(prefix, line@);
            assert(line_views(lines@).subrange(0, idx + 1) =~= prefix.push(line@));
        }
        idx += 1;
    }
    proof {
        assert(line_views(lines@).subrange(0, lines@.len() as int) =~= line_views(lines@));
    }
    out
}

} // verus!
