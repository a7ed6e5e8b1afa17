//! The sanitizer: the lines of an entry in their canonical form.

use crate::text::{lemma_trimmed_end_is_trimmed, trim_end, trimmed_end};
use vstd::prelude::*;

verus! {

/// The lines in their canonical form: each without the white space at its end,
/// carriage returns included. No line is dropped, an empty line stays empty, and
/// the lines keep their order.
pub open spec fn sanitized(lines: Seq<Seq<char>>) -> Seq<Seq<char>> {
    Seq::new(lines.len(), |i: int| trimmed_end(lines[i]))
}

/// Brings the lines of an entry into their canonical form.
pub fn sanitize_new_content(lines: Vec<String>) -> (out: Vec<String>)
    ensures
        out.deep_view() == sanitized(lines.deep_view()),
        out.len() == lines.len(),
{
    let mut out: Vec<String> = Vec::new();
    let mut i: usize = 0;
    while i < lines.len()
        invariant
            i <= lines.len(),
            out.len() == i,
            forall|j: int| 0 <= j < i ==> out.deep_view()[j] == trimmed_end(lines.deep_view()[j]),
        decreases lines.len() - i,
    {
        let ghost before = out.deep_view();
        let line = trim_end(lines[i].as_str());
        out.push(line);
        assert(out.deep_view() =~= before.push(line@));
        i += 1;
    }
    assert(out.deep_view() =~= sanitized(lines.deep_view()));
    out
}

/// Sanitizing keeps the number of lines and their order: the line at each index
/// is the line that stood there, cut off where the white space at its end
/// began.
pub proof fn lemma_sanitized_keeps_lines(lines: Seq<Seq<char>>)
    ensures
        sanitized(lines).len() == lines.len(),
        forall|i: int|
            0 <= i < lines.len() ==> (#[trigger] sanitized(lines)[i]).is_prefix_of(lines[i])
                && sanitized(lines)[i] == trimmed_end(lines[i]),
{
    assert forall|i: int| 0 <= i < lines.len() implies (#[trigger] sanitized(
        lines,
    )[i]).is_prefix_of(lines[i]) by {
        lemma_trimmed_end_is_trimmed(lines[i]);
    }
}

/// Sanitizing twice gives what sanitizing once gives.
pub proof fn lemma_sanitized_idempotent(lines: Seq<Seq<char>>)
    ensures
        sanitized(sanitized(lines)) == sanitized(lines),
{
    assert forall|i: int| 0 <= i < lines.len() implies #[trigger] sanitized(sanitized(lines))[i]
        == sanitized(lines)[i] by {
        lemma_trimmed_end_is_trimmed(lines[i]);
    }
    assert(sanitized(sanitized(lines)) =~= sanitized(lines));
}

} // verus!
