//! The merge engine: where the lines of a new entry go in the document.
//!
//! A document is a list of lines. Its title line comes first, then one section
//! for each day, the newest first; a section starts with its header, a heading
//! of the second level that holds the day. An entry is merged under the header
//! of its day, and where the document has no such header yet, one is made
//! directly under the title.

use crate::constants::TITLE;
use vstd::multiset::Multiset;
use vstd::prelude::*;
use vstd::string::StringExecFns;

verus! {

/// The title line as a sequence of characters.
pub open spec fn title_line() -> Seq<char> {
    TITLE@
}

/// The empty line.
pub open spec fn blank_line() -> Seq<char> {
    Seq::empty()
}

/// The header of the section of `day`: `## ` and the day.
pub open spec fn header_of(day: Seq<char>) -> Seq<char> {
    seq!['#', '#', ' '] + day
}

/// The index of the first line of `lines` that equals `line`, or the length of
/// `lines` if none does.
pub open spec fn index_of(lines: Seq<Seq<char>>, line: Seq<char>) -> int
    decreases lines.len(),
{
    if lines.len() == 0 || lines[0] == line {
        0
    } else {
        1 + index_of(lines.drop_first(), line)
    }
}

/// The index directly behind the first occurrence of `anchor` in `lines`. Where
/// `anchor` does not occur this is the index behind the first line, and 0 in a
/// document without lines.
pub open spec fn behind(lines: Seq<Seq<char>>, anchor: Seq<char>) -> int {
    if lines.len() == 0 {
        0
    } else if lines.contains(anchor) {
        index_of(lines, anchor) + 1
    } else {
        1
    }
}

/// `lines` with `block` put in at index `at`; the lines from `at` on move down.
pub open spec fn spliced(lines: Seq<Seq<char>>, at: int, block: Seq<Seq<char>>) -> Seq<Seq<char>> {
    lines.subrange(0, at) + block + lines.subrange(at, lines.len() as int)
}

/// The document that results from merging the entry `new_lines` into the
/// document `old_lines` on the day `day`.
///
/// - The document has the day's header: the entry goes directly under the first
///   such header, as it is. An entry that brings the header too leaves the
///   document with that header twice.
/// - Only the entry has the header: the entry, an empty line, the document.
/// - Neither has it: the header, an empty line and the entry go directly under
///   the title line.
pub open spec fn merged(
    new_lines: Seq<Seq<char>>,
    old_lines: Seq<Seq<char>>,
    day: Seq<char>,
) -> Seq<Seq<char>> {
    let header = header_of(day);
    if old_lines.contains(header) {
        spliced(old_lines, behind(old_lines, header), new_lines)
    } else if new_lines.contains(header) {
        new_lines + seq![blank_line()] + old_lines
    } else {
        spliced(old_lines, behind(old_lines, title_line()), seq![header, blank_line()] + new_lines)
    }
}

/// What `index_of` finds: an index within bounds, the line at it where it is
/// below the length, and no such line before it.
pub proof fn lemma_index_of(lines: Seq<Seq<char>>, line: Seq<char>)
    ensures
        0 <= index_of(lines, line) <= lines.len(),
        index_of(lines, line) < lines.len() <==> lines.contains(line),
        index_of(lines, line) < lines.len() ==> lines[index_of(lines, line)] == line,
        forall|j: int| 0 <= j < index_of(lines, line) ==> lines[j] != line,
    decreases lines.len(),
{
    if lines.len() == 0 {
    } else if lines[0] == line {
    } else {
        let rest = lines.drop_first();
        lemma_index_of(rest, line);
        let k = index_of(rest, line);
        assert forall|j: int| 0 <= j < k + 1 implies lines[j] != line by {
            if j > 0 {
                assert(lines[j] == rest[j - 1]);
            }
        }
        if k < rest.len() {
            assert(lines[k + 1] == rest[k]);
        }
        if lines.contains(line) {
            let i = choose|i: int| 0 <= i < lines.len() && lines[i] == line;
            assert(rest[i - 1] == line);
        }
    }
}

/// `index_of` is `k` where `line` stands at `k` or `lines` ends there, and does
/// not stand before `k`.
pub proof fn lemma_index_of_at(lines: Seq<Seq<char>>, line: Seq<char>, k: int)
    requires
        0 <= k <= lines.len(),
        forall|j: int| 0 <= j < k ==> lines[j] != line,
        k < lines.len() ==> lines[k] == line,
    ensures
        index_of(lines, line) == k,
{
    lemma_index_of(lines, line);
}

/// The index of the first line that equals `line`, if there is one.
pub fn position(lines: &Vec<String>, line: &String) -> (found: Option<usize>)
    ensures
        found is Some <==> lines.deep_view().contains(line@),
        found is Some ==> found->0 == index_of(lines.deep_view(), line@),
{
    let mut i: usize = 0;
    while i < lines.len()
        invariant
            i <= lines.len(),
            forall|j: int| 0 <= j < i ==> lines.deep_view()[j] != line@,
        decreases lines.len() - i,
    {
        if lines[i] == *line {
            proof {
                lemma_index_of_at(lines.deep_view(), line@, i as int);
                assert(lines.deep_view()[i as int] == line@);
            }
            return Some(i);
        }
        i += 1;
    }
    None
}

/// Appends copies of the lines of `from` between `start` and `end` to `out`.
fn copy_lines(out: &mut Vec<String>, from: &Vec<String>, start: usize, end: usize)
    requires
        start <= end <= from.len(),
    ensures
        final(out).deep_view() == old(out).deep_view() + from.deep_view().subrange(
            start as int,
            end as int,
        ),
{
    let ghost before = out.deep_view();
    let mut i: usize = start;
    assert(out.deep_view() =~= before + from.deep_view().subrange(start as int, i as int));
    while i < end
        invariant
            start <= i <= end <= from.len(),
            out.deep_view() == before + from.deep_view().subrange(start as int, i as int),
        decreases end - i,
    {
        let ghost so_far = out.deep_view();
        out.push(from[i].clone());
        assert(out.deep_view() =~= so_far.push(from[i as int]@));
        i += 1;
        assert(out.deep_view() =~= before + from.deep_view().subrange(start as int, i as int));
    }
}

/// `lines` with `block` put in at index `at`.
pub fn splice(lines: &Vec<String>, at: usize, block: &Vec<String>) -> (out: Vec<String>)
    requires
        at <= lines.len(),
    ensures
        out.deep_view() == spliced(lines.deep_view(), at as int, block.deep_view()),
{
    let mut out: Vec<String> = Vec::new();
    assert(out.deep_view() =~= Seq::<Seq<char>>::empty());
    copy_lines(&mut out, lines, 0, at);
    copy_lines(&mut out, block, 0, block.len());
    copy_lines(&mut out, lines, at, lines.len());
    assert(block.deep_view().subrange(0, block.len() as int) =~= block.deep_view());
    assert(out.deep_view() =~= spliced(lines.deep_view(), at as int, block.deep_view()));
    out
}

/// The header of the section of `day`.
pub fn subtitle(day: &str) -> (header: String)
    ensures
        header@ == header_of(day@),
{
    proof {
        reveal_strlit("## ");
    }
    let mut header = String::from_str("## ");
    assert(header@ =~= seq!['#', '#', ' ']);
    header.append(day);
    header
}

/// The empty line that stands between a header and what follows it.
pub fn newline() -> (line: String)
    ensures
        line@ == blank_line(),
{
    String::new()
}

/// The index behind the first occurrence of `anchor` in `lines`.
fn index_behind(lines: &Vec<String>, anchor: &String) -> (at: usize)
    ensures
        at == behind(lines.deep_view(), anchor@),
        at <= lines.len(),
{
    if lines.len() == 0 {
        return 0;
    }
    match position(lines, anchor) {
        Some(i) => {
            proof {
                lemma_index_of(lines.deep_view(), anchor@);
            }
            i + 1
        },
        None => 1,
    }
}

/// Merges the entry `new_lines` into the document `old_lines` on the day `day`.
pub fn merge(new_lines: &Vec<String>, old_lines: &Vec<String>, day: &str) -> (out: Vec<String>)
    ensures
        out.deep_view() == merged(new_lines.deep_view(), old_lines.deep_view(), day@),
{
    let header = subtitle(day);
    if position(old_lines, &header).is_some() {
        let at = index_behind(old_lines, &header);
        splice(old_lines, at, new_lines)
    } else if position(new_lines, &header).is_some() {
        let mut out: Vec<String> = Vec::new();
        assert(out.deep_view() =~= Seq::<Seq<char>>::empty());
        copy_lines(&mut out, new_lines, 0, new_lines.len());
        let ghost so_far = out.deep_view();
        out.push(newline());
        assert(out.deep_view() =~= so_far.push(blank_line()));
        copy_lines(&mut out, old_lines, 0, old_lines.len());
        assert(new_lines.deep_view().subrange(0, new_lines.len() as int)
            =~= new_lines.deep_view());
        assert(old_lines.deep_view().subrange(0, old_lines.len() as int)
            =~= old_lines.deep_view());
        assert(out.deep_view() =~= new_lines.deep_view() + seq![blank_line()]
            + old_lines.deep_view());
        out
    } else {
        let title = String::from_str(TITLE);
        let at = index_behind(old_lines, &title);
        let mut block: Vec<String> = Vec::new();
        assert(block.deep_view() =~= Seq::<Seq<char>>::empty());
        block.push(header);
        block.push(newline());
        assert(block.deep_view() =~= seq![header_of(day@), blank_line()]);
        copy_lines(&mut block, new_lines, 0, new_lines.len());
        assert(new_lines.deep_view().subrange(0, new_lines.len() as int)
            =~= new_lines.deep_view());
        splice(old_lines, at, &block)
    }
}

/// What merging adds to the lines of the entry and of the document: nothing
/// where the document has the day's header, an empty line where only the entry
/// has it, and the header with an empty line where neither has it.
pub open spec fn added(
    new_lines: Seq<Seq<char>>,
    old_lines: Seq<Seq<char>>,
    day: Seq<char>,
) -> Seq<Seq<char>> {
    let header = header_of(day);
    if old_lines.contains(header) {
        Seq::empty()
    } else if new_lines.contains(header) {
        seq![blank_line()]
    } else {
        seq![header, blank_line()]
    }
}

/// The index behind an anchor lies within the document.
pub proof fn lemma_behind_in_bounds(lines: Seq<Seq<char>>, anchor: Seq<char>)
    ensures
        0 <= behind(lines, anchor) <= lines.len(),
        lines.len() > 0 ==> behind(lines, anchor) >= 1,
{
    lemma_index_of(lines, anchor);
}

/// Putting a block into a document changes nothing but to add the block's
/// lines: as multisets, the result is the document and the block together.
pub proof fn lemma_spliced_multiset(lines: Seq<Seq<char>>, at: int, block: Seq<Seq<char>>)
    requires
        0 <= at <= lines.len(),
    ensures
        spliced(lines, at, block).to_multiset() == lines.to_multiset().add(block.to_multiset()),
        spliced(lines, at, block).len() == lines.len() + block.len(),
{
    let head = lines.subrange(0, at);
    let tail = lines.subrange(at, lines.len() as int);
    vstd::seq_lib::lemma_multiset_commutative(head + block, tail);
    vstd::seq_lib::lemma_multiset_commutative(head, block);
    vstd::seq_lib::lemma_multiset_commutative(head, tail);
    assert(head + tail =~= lines);
    assert(spliced(lines, at, block).to_multiset() =~= lines.to_multiset().add(
        block.to_multiset(),
    ));
}

/// Merging neither drops nor invents a line: as multisets, the merged document
/// is the old document, the entry, and what `added` names.
pub proof fn lemma_merged_multiset(
    new_lines: Seq<Seq<char>>,
    old_lines: Seq<Seq<char>>,
    day: Seq<char>,
)
    ensures
        merged(new_lines, old_lines, day).to_multiset() == old_lines.to_multiset().add(
            new_lines.to_multiset(),
        ).add(added(new_lines, old_lines, day).to_multiset()),
        merged(new_lines, old_lines, day).len() == old_lines.len() + new_lines.len() + added(
            new_lines,
            old_lines,
            day,
        ).len(),
{
    let header = header_of(day);
    let extra = added(new_lines, old_lines, day);
    let all = old_lines.to_multiset().add(new_lines.to_multiset()).add(extra.to_multiset());
    if old_lines.contains(header) {
        lemma_behind_in_bounds(old_lines, header);
        lemma_spliced_multiset(old_lines, behind(old_lines, header), new_lines);
        extra.to_multiset_ensures();
        assert(extra.to_multiset() =~= Multiset::<Seq<char>>::empty());
        assert(merged(new_lines, old_lines, day).to_multiset() =~= all);
    } else if new_lines.contains(header) {
        vstd::seq_lib::lemma_multiset_commutative(new_lines + extra, old_lines);
        vstd::seq_lib::lemma_multiset_commutative(new_lines, extra);
        assert(merged(new_lines, old_lines, day).to_multiset() =~= all);
    } else {
        lemma_behind_in_bounds(old_lines, title_line());
        lemma_spliced_multiset(old_lines, behind(old_lines, title_line()), extra + new_lines);
        vstd::seq_lib::lemma_multiset_commutative(extra, new_lines);
        assert(merged(new_lines, old_lines, day).to_multiset() =~= all);
    }
}

/// Whether `result` is `lines` with `block` put in at the index `at`.
pub open spec fn is_spliced(
    result: Seq<Seq<char>>,
    lines: Seq<Seq<char>>,
    at: int,
    block: Seq<Seq<char>>,
) -> bool {
    0 <= at <= lines.len() && result == spliced(lines, at, block)
}

/// Merging puts one block into the old document and changes nothing else: the
/// lines of the document keep their order, and the lines of the entry stand
/// together in theirs, with what `added` names before or behind them.
pub proof fn lemma_merged_is_one_block(
    new_lines: Seq<Seq<char>>,
    old_lines: Seq<Seq<char>>,
    day: Seq<char>,
)
    ensures
        (exists|at: int| #[trigger]
            is_spliced(
                merged(new_lines, old_lines, day),
                old_lines,
                at,
                added(new_lines, old_lines, day) + new_lines,
            )) || (exists|at: int| #[trigger]
            is_spliced(
                merged(new_lines, old_lines, day),
                old_lines,
                at,
                new_lines + added(new_lines, old_lines, day),
            )),
{
    let header = header_of(day);
    let extra = added(new_lines, old_lines, day);
    let result = merged(new_lines, old_lines, day);
    if old_lines.contains(header) {
        lemma_behind_in_bounds(old_lines, header);
        assert(extra + new_lines =~= new_lines);
        assert(is_spliced(result, old_lines, behind(old_lines, header), extra + new_lines));
    } else if new_lines.contains(header) {
        assert(spliced(old_lines, 0, new_lines + extra) =~= result);
        assert(is_spliced(result, old_lines, 0, new_lines + extra));
    } else {
        lemma_behind_in_bounds(old_lines, title_line());
        assert(is_spliced(result, old_lines, behind(old_lines, title_line()), extra + new_lines));
    }
}

/// Merging deletes nothing: every line of the old document, and every line of
/// the entry, is a line of the merged document.
pub proof fn lemma_merged_keeps_lines(
    new_lines: Seq<Seq<char>>,
    old_lines: Seq<Seq<char>>,
    day: Seq<char>,
)
    ensures
        forall|line: Seq<char>| #[trigger]
            old_lines.contains(line) ==> merged(new_lines, old_lines, day).contains(line),
        forall|line: Seq<char>| #[trigger]
            new_lines.contains(line) ==> merged(new_lines, old_lines, day).contains(line),
        merged(new_lines, old_lines, day).contains(header_of(day)),
{
    let result = merged(new_lines, old_lines, day);
    lemma_merged_multiset(new_lines, old_lines, day);
    assert forall|line: Seq<char>|
        old_lines.contains(line) || new_lines.contains(line) implies result.contains(line) by {
        vstd::seq_lib::to_multiset_contains(old_lines, line);
        vstd::seq_lib::to_multiset_contains(new_lines, line);
        vstd::seq_lib::to_multiset_contains(result, line);
    }
    let header = header_of(day);
    if !old_lines.contains(header) && !new_lines.contains(header) {
        let extra = added(new_lines, old_lines, day);
        assert(extra[0] == header);
        vstd::seq_lib::to_multiset_contains(extra, header);
        vstd::seq_lib::to_multiset_contains(result, header);
    }
}

/// Merging an entry without lines into a document that has the day's header
/// leaves the document as it was.
pub proof fn lemma_merged_nothing(old_lines: Seq<Seq<char>>, day: Seq<char>)
    requires
        old_lines.contains(header_of(day)),
    ensures
        merged(Seq::empty(), old_lines, day) == old_lines,
{
    lemma_behind_in_bounds(old_lines, header_of(day));
    assert(merged(Seq::empty(), old_lines, day) =~= old_lines);
}

/// Merging an entry without lines into a document that lacks the day's header
/// adds the header and an empty line behind the title, and nothing else.
pub proof fn lemma_merged_nothing_opens_section(old_lines: Seq<Seq<char>>, day: Seq<char>)
    requires
        !old_lines.contains(header_of(day)),
    ensures
        merged(Seq::empty(), old_lines, day) == spliced(
            old_lines,
            behind(old_lines, title_line()),
            seq![header_of(day), blank_line()],
        ),
{
    let block = seq![header_of(day), blank_line()];
    assert(block + Seq::<Seq<char>>::empty() =~= block);
}

/// The title line is neither a header of a day nor empty.
pub proof fn lemma_title_is_no_header(day: Seq<char>)
    ensures
        title_line() != header_of(day),
        title_line() != blank_line(),
        title_line().len() == 5,
{
    reveal_strlit("# LOG");
    assert(title_line().len() == 5);
    assert(title_line()[1] == ' ');
    assert(header_of(day)[1] == '#');
}

/// An entry without a title line leaves the document with as many title lines
/// as it had: a document with one title keeps its one title.
pub proof fn lemma_merged_keeps_title(
    new_lines: Seq<Seq<char>>,
    old_lines: Seq<Seq<char>>,
    day: Seq<char>,
)
    requires
        !new_lines.contains(title_line()),
    ensures
        merged(new_lines, old_lines, day).to_multiset().count(title_line())
            == old_lines.to_multiset().count(title_line()),
{
    lemma_merged_multiset(new_lines, old_lines, day);
    lemma_title_is_no_header(day);
    let extra = added(new_lines, old_lines, day);
    vstd::seq_lib::to_multiset_contains(new_lines, title_line());
    vstd::seq_lib::to_multiset_contains(extra, title_line());
    if extra.contains(title_line()) {
        let i = choose|i: int| 0 <= i < extra.len() && extra[i] == title_line();
        assert(extra[i] == header_of(day) || extra[i] == blank_line());
    }
}

/// The merged document has the day's header exactly once, where the document
/// and the entry have it at most once each and not both of them have it.
pub proof fn lemma_merged_one_section(
    new_lines: Seq<Seq<char>>,
    old_lines: Seq<Seq<char>>,
    day: Seq<char>,
)
    requires
        old_lines.to_multiset().count(header_of(day)) <= 1,
        new_lines.to_multiset().count(header_of(day)) <= 1,
        !(old_lines.contains(header_of(day)) && new_lines.contains(header_of(day))),
    ensures
        merged(new_lines, old_lines, day).to_multiset().count(header_of(day)) == 1,
{
    let header = header_of(day);
    lemma_merged_multiset(new_lines, old_lines, day);
    let extra = added(new_lines, old_lines, day);
    vstd::seq_lib::to_multiset_contains(new_lines, header);
    vstd::seq_lib::to_multiset_contains(old_lines, header);
    assert(header != blank_line()) by {
        assert(header.len() >= 3);
    }
    vstd::seq_lib::to_multiset_contains(extra, header);
    if !old_lines.contains(header) && !new_lines.contains(header) {
        broadcast use vstd::multiset::group_multiset_axioms;

        let none = Seq::<Seq<char>>::empty();
        assert(extra =~= none.push(header).push(blank_line()));
        vstd::seq_lib::to_multiset_contains(none, header);
        vstd::seq_lib::to_multiset_build(none, header);
        vstd::seq_lib::to_multiset_build(none.push(header), blank_line());
    }
}

/// The title stays the first line, unless the entry brings a header that the
/// document lacks: such an entry goes to the top as it is.
pub proof fn lemma_merged_title_stays_first(
    new_lines: Seq<Seq<char>>,
    old_lines: Seq<Seq<char>>,
    day: Seq<char>,
)
    requires
        old_lines.len() > 0,
        old_lines[0] == title_line(),
        old_lines.contains(header_of(day)) || !new_lines.contains(header_of(day)),
    ensures
        merged(new_lines, old_lines, day).len() > 0,
        merged(new_lines, old_lines, day)[0] == title_line(),
{
    lemma_behind_in_bounds(old_lines, header_of(day));
    lemma_behind_in_bounds(old_lines, title_line());
}

} // verus!
