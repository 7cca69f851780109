//! The line source's command policy: which input lines become jobs.
//!
//! Every line has already had its trailing terminator stripped by the
//! reader. A line is *blank* when it holds nothing but spaces, tabs and
//! carriage returns; blank lines are skipped rather than launched as empty
//! commands. Every other line is one job, passed to the shell verbatim
//! (`sh -c <line>`), so quoting, pipes and redirections keep their shell
//! meaning — including for untrusted input lines.

use vstd::prelude::*;
use vstd::seq_lib::*;

verus! {

/// The characters a blank line may consist of.
pub open spec fn is_blank_char(c: char) -> bool {
    c == ' ' || c == '\t' || c == '\r'
}

/// A line is blank when every character of it is blank; the empty line is.
pub open spec fn is_blank(s: Seq<char>) -> bool {
    forall|i: int| 0 <= i < s.len() ==> is_blank_char(#[trigger] s[i])
}

/// Decides whether `line` is blank and therefore skipped.
pub fn line_is_blank(line: &str) -> (r: bool)
    ensures
        r == is_blank(line@),
{
    let len = line.unicode_len();
    let mut i: usize = 0;
    while i < len
        invariant
            len == line@.len(),
            i <= len,
            forall|j: int| 0 <= j < i ==> is_blank_char(#[trigger] line@[j]),
        decreases len - i,
    {
        let c = line.get_char(i);
        if !(c == ' ' || c == '\t' || c == '\r') {
            assert(!is_blank_char(line@[i as int]));
            return false;
        }
        i = i + 1;
    }
    true
}

/// The non-blank lines of a batch, in order: the jobs the batch gives rise
/// to, one per non-blank line.
pub open spec fn job_lines(lines: Seq<Seq<char>>) -> Seq<Seq<char>> {
    lines.filter(|l: Seq<char>| !is_blank(l))
}

/// Filters a batch of lines down to the ones that become jobs: blank lines
/// are dropped, all others are kept in input order.
pub fn plan_jobs(lines: &Vec<String>) -> (jobs: Vec<String>)
    ensures
        jobs@.map_values(|s: String| s@) == job_lines(lines@.map_values(|s: String| s@)),
{
    let ghost all: Seq<Seq<char>> = lines@.map_values(|s: String| s@);
    let mut jobs: Vec<String> = Vec::new();
    let n = lines.len();
    let mut i: usize = 0;
    proof {
        assert(all.take(0) =~= Seq::<Seq<char>>::empty());
        reveal(Seq::filter);
    }
    while i < n
        invariant
            all == lines@.map_values(|s: String| s@),
            n == lines@.len(),
            i <= n,
            jobs@.map_values(|s: String| s@) == job_lines(all.take(i as int)),
        decreases n - i,
    {
        let ghost taken = all.take(i as int);
        let line = &lines[i];
        let blank = line_is_blank(line.as_str());
        if !blank {
            jobs.push(line.clone());
        }
        proof {
            let next = all.take(i as int + 1);
            assert(next.drop_last() =~= taken);
            assert(next.last() == all[i as int]);
            reveal(Seq::filter);
            if !blank {
                assert(jobs@.map_values(|s: String| s@) =~= job_lines(taken).push(
                    all[i as int],
                ));
            } else {
                assert(jobs@.map_values(|s: String| s@) =~= job_lines(taken));
            }
        }
        i = i + 1;
    }
    proof {
        assert(all.take(n as int) =~= all);
    }
    jobs
}

} // verus!
