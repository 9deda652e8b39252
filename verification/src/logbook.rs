//! Bounded logs: the newest lines stay, the oldest drop.

use vstd::prelude::*;

verus! {

/// The last `cap` lines.
pub open spec fn newest(lines: Seq<Seq<char>>, cap: nat) -> Seq<Seq<char>> {
    if lines.len() > cap {
        lines.skip(lines.len() - cap)
    } else {
        lines
    }
}

/// `lines` after one more line was logged and the oldest were dropped.
pub open spec fn logged(lines: Seq<Seq<char>>, line: Seq<char>, cap: nat) -> Seq<Seq<char>> {
    newest(lines.push(line), cap)
}

/// Add a line to a log of at most `cap` lines.
pub fn push_bounded(lines: &mut Vec<String>, line: String, cap: usize)
    ensures
        final(lines).deep_view() == logged(old(lines).deep_view(), line@, cap as nat),
{
    let ghost before = lines.deep_view();
    lines.push(line);
    assert(lines.deep_view() =~= before.push(line@));
    if lines.len() > cap {
        let excess: usize = lines.len() - cap;
        let kept: Vec<String> = lines.split_off(excess);
        *lines = kept;
    }
    assert(lines.deep_view() =~= logged(before, line@, cap as nat));
}

/// The `count` newest of the lines, newest first.
pub open spec fn tail_reversed(lines: Seq<Seq<char>>, count: nat) -> Seq<Seq<char>> {
    newest(lines, count).reverse()
}

/// The `count` newest of the lines, newest first.
pub fn log_tail(lines: &Vec<String>, count: usize) -> (r: Vec<String>)
    ensures
        r.deep_view() == tail_reversed(lines.deep_view(), count as nat),
{
    let mut r: Vec<String> = Vec::new();
    let mut i: usize = lines.len();
    let ghost model = lines.deep_view();
    while i > 0 && lines.len() - i < count
        invariant
            0 <= i <= lines.len(),
            model == lines.deep_view(),
            r@.len() == lines.len() - i,
            r@.len() <= count,
            forall|k: int| 0 <= k < r@.len() ==> (#[trigger] r@[k])@ == model[model.len() - 1 - k],
        decreases i,
    {
        i = i - 1;
        r.push(lines[i].clone());
    }
    assert(r.deep_view() =~= tail_reversed(model, count as nat));
    r
}

/// A log that was within its bound stays within it, and its newest line is the
/// one just logged.
pub proof fn law_log_bounded(lines: Seq<Seq<char>>, line: Seq<char>, cap: nat)
    requires
        cap > 0,
    ensures
        logged(lines, line, cap).len() <= cap,
        logged(lines, line, cap).last() == line,
{
}

/// Logging keeps the lines in order: counted from the end, the new line comes
/// first, and behind it the lines as they stood, as many as the bound lets stay.
pub proof fn law_log_keeps_the_newest(lines: Seq<Seq<char>>, line: Seq<char>, cap: nat)
    ensures
        ({
            let log = logged(lines, line, cap);
            &&& log.len() == if lines.len() + 1 <= cap {
                lines.len() + 1
            } else {
                cap
            }
            &&& log.len() > 0 ==> log[log.len() - 1] == line
            &&& forall|k: int|
                1 <= k < log.len() ==> #[trigger] log[log.len() - 1 - k] == lines[lines.len() - k]
        }),
{
}

/// The lines that are shown are the newest ones, from the last backwards, as many
/// as are asked for and there are.
pub proof fn law_newest_shown_first(lines: Seq<Seq<char>>, count: nat)
    ensures
        ({
            let shown = tail_reversed(lines, count);
            &&& shown.len() == if lines.len() <= count {
                lines.len()
            } else {
                count
            }
            &&& forall|k: int|
                0 <= k < shown.len() ==> #[trigger] shown[k] == lines[lines.len() - 1 - k]
        }),
{
}

} // verus!
