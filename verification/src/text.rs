//! Text as sequences of characters: lines, joining, prefixes, white space.
//!
//! Every contract here speaks of a string through its view, a `Seq<char>`, and of
//! a list of lines through its deep view, a `Seq<Seq<char>>`.

use vstd::prelude::*;
use vstd::std_specs::iter::IteratorSpec;
use vstd::string::StringExecFns;

verus! {

/// The line separator of a document.
pub open spec fn line_break() -> char {
    '\n'
}

/// Whether `c` has the Unicode property `White_Space`.
pub open spec fn is_white_space(c: char) -> bool {
    let n = c as u32;
    ||| 0x9 <= n <= 0xD
    ||| n == 0x20
    ||| n == 0x85
    ||| n == 0xA0
    ||| n == 0x1680
    ||| 0x2000 <= n <= 0x200A
    ||| n == 0x2028
    ||| n == 0x2029
    ||| n == 0x202F
    ||| n == 0x205F
    ||| n == 0x3000
}

/// `s` without the white space at its end.
pub open spec fn trimmed_end(s: Seq<char>) -> Seq<char>
    decreases s.len(),
{
    if s.len() > 0 && is_white_space(s.last()) {
        trimmed_end(s.drop_last())
    } else {
        s
    }
}

/// Whether `s` holds nothing but white space.
pub open spec fn is_blank(s: Seq<char>) -> bool {
    forall|i: int| 0 <= i < s.len() ==> is_white_space(#[trigger] s[i])
}

/// Whether `needle` occurs in `hay` as a contiguous run of characters.
pub open spec fn occurs_in(needle: Seq<char>, hay: Seq<char>) -> bool {
    exists|i: int| occurs_at(needle, hay, i)
}

/// Whether `needle` stands in `hay` at index `i`.
pub open spec fn occurs_at(needle: Seq<char>, hay: Seq<char>, i: int) -> bool {
    0 <= i && i + needle.len() <= hay.len() && hay.subrange(i, i + needle.len()) == needle
}

/// The index of the first line break in `s`, or the length of `s` if it has none.
pub open spec fn break_at(s: Seq<char>) -> int
    decreases s.len(),
{
    if s.len() == 0 || s[0] == line_break() {
        0
    } else {
        1 + break_at(s.drop_first())
    }
}

/// A line as it stood before its line break, without the carriage return that
/// may end it.
pub open spec fn without_cr(line: Seq<char>) -> Seq<char> {
    if line.len() > 0 && line.last() == '\r' {
        line.drop_last()
    } else {
        line
    }
}

/// The lines of a text. A line ends at a line break, which is not part of the
/// line, and neither is a carriage return that stands directly before the break.
/// What follows the last break is a line of its own unless it is empty, and it
/// keeps a carriage return at its end.
pub open spec fn lines_of(s: Seq<char>) -> Seq<Seq<char>>
    decreases s.len(),
{
    let k = break_at(s);
    if s.len() == 0 {
        Seq::empty()
    } else if 0 <= k < s.len() {
        seq![without_cr(s.subrange(0, k))] + lines_of(s.subrange(k + 1, s.len() as int))
    } else {
        seq![s]
    }
}

/// The lines with one line break between each two neighbours.
pub open spec fn joined(lines: Seq<Seq<char>>) -> Seq<char>
    decreases lines.len(),
{
    if lines.len() == 0 {
        Seq::empty()
    } else if lines.len() == 1 {
        lines[0]
    } else {
        joined(lines.drop_last()) + seq![line_break()] + lines.last()
    }
}

/// The character of a digit below ten.
pub open spec fn digit_of(d: nat) -> char {
    if d == 0 {
        '0'
    } else if d == 1 {
        '1'
    } else if d == 2 {
        '2'
    } else if d == 3 {
        '3'
    } else if d == 4 {
        '4'
    } else if d == 5 {
        '5'
    } else if d == 6 {
        '6'
    } else if d == 7 {
        '7'
    } else if d == 8 {
        '8'
    } else {
        '9'
    }
}

/// A number in decimal digits, without leading zeros.
pub open spec fn decimal_of(n: nat) -> Seq<char>
    decreases n,
{
    if n < 10 {
        seq![digit_of(n)]
    } else {
        decimal_of(n / 10).push(digit_of(n % 10))
    }
}

/// `s` without the white space at its start.
pub open spec fn trimmed_start(s: Seq<char>) -> Seq<char>
    decreases s.len(),
{
    if s.len() > 0 && is_white_space(s[0]) {
        trimmed_start(s.drop_first())
    } else {
        s
    }
}

/// `s` without the white space at its start and at its end.
pub open spec fn trimmed(s: Seq<char>) -> Seq<char> {
    trimmed_start(trimmed_end(s))
}

/// `break_at(s)` is `k` where no line break stands before `k` and either one
/// stands at `k` or `s` ends there.
pub proof fn lemma_break_at(s: Seq<char>, k: int)
    requires
        0 <= k <= s.len(),
        forall|j: int| 0 <= j < k ==> s[j] != line_break(),
        k < s.len() ==> s[k] == line_break(),
    ensures
        break_at(s) == k,
    decreases s.len(),
{
    if s.len() == 0 || s[0] == line_break() {
    } else {
        let rest = s.drop_first();
        assert forall|j: int| 0 <= j < k - 1 implies rest[j] != line_break() by {
            assert(rest[j] == s[j + 1]);
        }
        lemma_break_at(rest, k - 1);
    }
}

/// Trimming leaves nothing to trim.
pub proof fn lemma_trimmed_end_is_trimmed(s: Seq<char>)
    ensures
        trimmed_end(s).len() <= s.len(),
        trimmed_end(s).len() > 0 ==> !is_white_space(trimmed_end(s).last()),
        trimmed_end(trimmed_end(s)) == trimmed_end(s),
        trimmed_end(s) == s.subrange(0, trimmed_end(s).len() as int),
    decreases s.len(),
{
    if s.len() > 0 && is_white_space(s.last()) {
        lemma_trimmed_end_is_trimmed(s.drop_last());
        let t = trimmed_end(s);
        assert(t =~= s.subrange(0, t.len() as int));
    } else {
        assert(s =~= s.subrange(0, s.len() as int));
    }
}

/// `trimmed_end(s)` is the part of `s` before `k` where only white space stands
/// from `k` on and none stands directly before `k`.
pub proof fn lemma_trimmed_end_at(s: Seq<char>, k: int)
    requires
        0 <= k <= s.len(),
        forall|j: int| k <= j < s.len() ==> is_white_space(#[trigger] s[j]),
        k > 0 ==> !is_white_space(s[k - 1]),
    ensures
        trimmed_end(s) == s.subrange(0, k),
    decreases s.len() - k,
{
    if k == s.len() {
        assert(s =~= s.subrange(0, k));
    } else {
        let shorter = s.drop_last();
        assert forall|j: int| k <= j < shorter.len() implies is_white_space(
            #[trigger] shorter[j],
        ) by {
            assert(shorter[j] == s[j]);
        }
        lemma_trimmed_end_at(shorter, k);
        assert(shorter.subrange(0, k) =~= s.subrange(0, k));
    }
}

/// `trimmed_start(s)` is the part of `s` from `k` on where only white space
/// stands before `k` and none stands at `k`.
pub proof fn lemma_trimmed_start_at(s: Seq<char>, k: int)
    requires
        0 <= k <= s.len(),
        forall|j: int| 0 <= j < k ==> is_white_space(#[trigger] s[j]),
        k < s.len() ==> !is_white_space(s[k]),
    ensures
        trimmed_start(s) == s.subrange(k, s.len() as int),
    decreases k,
{
    if k == 0 {
        assert(s =~= s.subrange(0, s.len() as int));
    } else {
        let rest = s.drop_first();
        assert forall|j: int| 0 <= j < k - 1 implies is_white_space(#[trigger] rest[j]) by {
            assert(rest[j] == s[j + 1]);
        }
        lemma_trimmed_start_at(rest, k - 1);
        assert(rest.subrange(k - 1, rest.len() as int) =~= s.subrange(k, s.len() as int));
    }
}

/// Whether `line` can be a line of a text: it holds no line break, and no
/// carriage return at its end.
pub open spec fn is_single_line(line: Seq<char>) -> bool {
    &&& forall|j: int| 0 <= j < line.len() ==> line[j] != line_break()
    &&& line.len() > 0 ==> line.last() != '\r'
}

/// The lines of a text hold no line break.
pub proof fn lemma_lines_have_no_break(s: Seq<char>)
    ensures
        forall|i: int, j: int|
            0 <= i < lines_of(s).len() && 0 <= j < lines_of(s)[i].len() ==> lines_of(s)[i][j]
                != line_break(),
    decreases s.len(),
{
    let k = break_at(s);
    lemma_break_at_bounds(s);
    if s.len() == 0 {
    } else if k < s.len() {
        let rest = s.subrange(k + 1, s.len() as int);
        let first = without_cr(s.subrange(0, k));
        lemma_lines_have_no_break(rest);
        assert forall|i: int, j: int|
            0 <= i < lines_of(s).len() && 0 <= j < lines_of(s)[i].len() implies lines_of(s)[i][j]
            != line_break() by {
            if i == 0 {
                assert(first[j] == s[j]);
            } else {
                assert(lines_of(s)[i] == lines_of(rest)[i - 1]);
            }
        }
    } else {
    }
}

/// What `break_at` finds: an index within bounds, a line break at it where it is
/// below the length, and none before it.
pub proof fn lemma_break_at_bounds(s: Seq<char>)
    ensures
        0 <= break_at(s) <= s.len(),
        break_at(s) < s.len() ==> s[break_at(s)] == line_break(),
        forall|j: int| 0 <= j < break_at(s) ==> s[j] != line_break(),
    decreases s.len(),
{
    if s.len() == 0 || s[0] == line_break() {
    } else {
        let rest = s.drop_first();
        lemma_break_at_bounds(rest);
        assert forall|j: int| 0 <= j < break_at(s) implies s[j] != line_break() by {
            if j > 0 {
                assert(s[j] == rest[j - 1]);
            }
        }
        if break_at(rest) < rest.len() {
            assert(s[break_at(rest) + 1] == rest[break_at(rest)]);
        }
    }
}

/// Joined lines begin with the first line and a line break, where there is more
/// than one line.
pub proof fn lemma_joined_front(lines: Seq<Seq<char>>)
    requires
        lines.len() >= 2,
    ensures
        joined(lines) == lines[0] + seq![line_break()] + joined(lines.drop_first()),
    decreases lines.len(),
{
    let rest = lines.drop_first();
    if lines.len() == 2 {
        assert(lines.drop_last() =~= seq![lines[0]]);
        assert(joined(lines.drop_last()) == lines[0]);
        assert(joined(rest) == rest[0]);
        assert(joined(lines) =~= lines[0] + seq![line_break()] + joined(rest));
    } else {
        lemma_joined_front(lines.drop_last());
        assert(lines.drop_last().drop_first() =~= rest.drop_last());
        assert(rest.last() == lines.last());
        assert(lines.drop_last()[0] == lines[0]);
        assert(joined(lines) =~= lines[0] + seq![line_break()] + joined(rest));
    }
}

/// A document that is written and read again has the lines that it had: the
/// lines of joined lines are those lines, where each of them can be a line of a
/// text and the last one is not empty.
pub proof fn lemma_lines_of_joined(lines: Seq<Seq<char>>)
    requires
        forall|i: int| 0 <= i < lines.len() ==> is_single_line(#[trigger] lines[i]),
        lines.len() > 0 ==> lines.last().len() > 0,
    ensures
        lines_of(joined(lines)) == lines,
    decreases lines.len(),
{
    if lines.len() == 0 {
        assert(lines_of(joined(lines)) =~= lines);
    } else if lines.len() == 1 {
        let only = lines[0];
        assert(is_single_line(only));
        lemma_break_at(only, only.len() as int);
        assert(lines_of(only) =~= lines);
    } else {
        let first = lines[0];
        let rest = lines.drop_first();
        let text = joined(lines);
        let tail = joined(rest);
        lemma_joined_front(lines);
        assert(is_single_line(first));
        assert forall|i: int| 0 <= i < rest.len() implies is_single_line(#[trigger] rest[i]) by {
            assert(rest[i] == lines[i + 1]);
        }
        assert(rest.last() == lines.last());
        lemma_lines_of_joined(rest);
        assert forall|j: int| 0 <= j < first.len() implies text[j] != line_break() by {
            assert(text[j] == first[j]);
        }
        assert(text[first.len() as int] == line_break());
        lemma_break_at(text, first.len() as int);
        assert(text.subrange(0, first.len() as int) =~= first);
        assert(text.subrange(first.len() as int + 1, text.len() as int) =~= tail);
        assert(lines_of(text) =~= lines);
    }
}

/// `String::push` puts the character at the end of the string and leaves the
/// rest as it was.
pub assume_specification[ String::push ](s: &mut String, c: char)
    ensures
        final(s)@ == old(s)@.push(c),
;

/// Whether `c` is white space, as `char::is_whitespace` has it.
pub fn is_white_space_char(c: char) -> (b: bool)
    ensures
        b == is_white_space(c),
{
    let n: u32 = c as u32;
    (0x9 <= n && n <= 0xD) || n == 0x20 || n == 0x85 || n == 0xA0 || n == 0x1680 || (0x2000 <= n
        && n <= 0x200A) || n == 0x2028 || n == 0x2029 || n == 0x202F || n == 0x205F || n == 0x3000
}

/// The characters of a string, in order.
pub fn to_chars(s: &str) -> (chars: Vec<char>)
    ensures
        chars@ == s@,
{
    let mut chars: Vec<char> = Vec::new();
    for c in it: s.chars()
        invariant
            it.seq() == s@,
            chars@ == s@.subrange(0, it.index() as int),
    {
        chars.push(c);
        assert(chars@ =~= s@.subrange(0, it.index() + 1));
    }
    assert(chars@ =~= s@);
    chars
}

/// The string made of the characters of `chars` from `from` up to `to`.
pub fn string_of(chars: &Vec<char>, from: usize, to: usize) -> (s: String)
    requires
        from <= to <= chars.len(),
    ensures
        s@ == chars@.subrange(from as int, to as int),
{
    let mut s = String::new();
    let mut i: usize = from;
    while i < to
        invariant
            from <= i <= to <= chars.len(),
            s@ == chars@.subrange(from as int, i as int),
        decreases to - i,
    {
        s.push(chars[i]);
        i += 1;
        assert(s@ =~= chars@.subrange(from as int, i as int));
    }
    s
}

/// Splits a text into its lines.
pub fn lines(text: &str) -> (out: Vec<String>)
    ensures
        out.deep_view() == lines_of(text@),
{
    let chars = to_chars(text);
    let n = chars.len();
    let mut out: Vec<String> = Vec::new();
    let mut start: usize = 0;
    let mut i: usize = 0;
    assert(out.deep_view() =~= Seq::<Seq<char>>::empty());
    assert(text@.subrange(0, n as int) =~= text@);
    while i < n
        invariant
            n == chars.len(),
            chars@ == text@,
            start <= i <= n,
            forall|j: int| start <= j < i ==> chars@[j] != line_break(),
            lines_of(text@) == out.deep_view() + lines_of(text@.subrange(start as int, n as int)),
        decreases n - i,
    {
        if chars[i] == '\n' {
            let end = if i > start && chars[i - 1] == '\r' {
                i - 1
            } else {
                i
            };
            let line = string_of(&chars, start, end);
            proof {
                let rest = text@.subrange(start as int, n as int);
                lemma_break_at(rest, i - start);
                assert(rest.subrange(0, i - start) =~= text@.subrange(start as int, i as int));
                assert(rest.subrange(i - start + 1, rest.len() as int) =~= text@.subrange(
                    i + 1,
                    n as int,
                ));
                assert(line@ =~= without_cr(text@.subrange(start as int, i as int)));
                let before = out.deep_view();
                let after = before.push(line@);
                assert(before + lines_of(rest) =~= after + lines_of(
                    text@.subrange(i + 1, n as int),
                ));
            }
            let ghost before = out.deep_view();
            out.push(line);
            assert(out.deep_view() =~= before.push(line@));
            start = i + 1;
        }
        i += 1;
    }
    if start < n {
        let line = string_of(&chars, start, n);
        proof {
            let rest = text@.subrange(start as int, n as int);
            lemma_break_at(rest, n - start);
            assert(lines_of(rest) =~= seq![rest]);
        }
        let ghost before = out.deep_view();
        out.push(line);
        assert(out.deep_view() =~= before.push(line@));
        assert(out.deep_view() =~= lines_of(text@));
    } else {
        assert(out.deep_view() =~= lines_of(text@));
    }
    out
}

/// Joins lines into one text, with a line break between each two.
pub fn join(lines: &Vec<String>) -> (text: String)
    ensures
        text@ == joined(lines.deep_view()),
{
    let mut text = String::new();
    let mut i: usize = 0;
    assert(lines.deep_view().subrange(0, 0) =~= Seq::<Seq<char>>::empty());
    while i < lines.len()
        invariant
            i <= lines.len(),
            text@ == joined(lines.deep_view().subrange(0, i as int)),
        decreases lines.len() - i,
    {
        if i > 0 {
            text.push('\n');
        }
        text.append(lines[i].as_str());
        proof {
            let upto = lines.deep_view().subrange(0, i + 1);
            assert(upto.drop_last() =~= lines.deep_view().subrange(0, i as int));
            assert(upto.last() == lines[i as int]@);
            if i == 0 {
                assert(text@ =~= joined(upto));
            }
        }
        i += 1;
    }
    assert(lines.deep_view().subrange(0, i as int) =~= lines.deep_view());
    text
}

/// Whether the characters of `prefix` stand at the start of `s`.
pub fn starts_with(s: &str, prefix: &str) -> (b: bool)
    ensures
        b == prefix@.is_prefix_of(s@),
{
    let hay = to_chars(s);
    let needle = to_chars(prefix);
    matches_at(&hay, &needle, 0)
}

/// Whether `needle` stands in `hay` at index `at`.
pub fn matches_at(hay: &Vec<char>, needle: &Vec<char>, at: usize) -> (b: bool)
    requires
        at <= hay.len(),
    ensures
        b == occurs_at(needle@, hay@, at as int),
{
    if needle.len() > hay.len() - at {
        return false;
    }
    let mut j: usize = 0;
    while j < needle.len()
        invariant
            at + needle.len() <= hay.len(),
            j <= needle.len(),
            forall|k: int| 0 <= k < j ==> hay@[at + k] == needle@[k],
        decreases needle.len() - j,
    {
        if hay[at + j] != needle[j] {
            proof {
                let part = hay@.subrange(at as int, at + needle.len());
                assert(part[j as int] != needle@[j as int]);
            }
            return false;
        }
        j += 1;
    }
    assert(hay@.subrange(at as int, at + needle.len()) =~= needle@);
    true
}

/// Whether `needle` occurs somewhere in `hay`.
pub fn occurs(hay: &Vec<char>, needle: &Vec<char>) -> (b: bool)
    ensures
        b == occurs_in(needle@, hay@),
{
    let mut i: usize = 0;
    loop
        invariant
            i <= hay.len(),
            forall|k: int| 0 <= k < i ==> !occurs_at(needle@, hay@, k),
        decreases hay.len() - i,
    {
        if matches_at(hay, needle, i) {
            return true;
        }
        if i == hay.len() {
            return false;
        }
        i += 1;
    }
}

/// Whether `needle` occurs somewhere in `s`.
pub fn contains(s: &str, needle: &str) -> (b: bool)
    ensures
        b == occurs_in(needle@, s@),
{
    let hay = to_chars(s);
    let pattern = to_chars(needle);
    occurs(&hay, &pattern)
}

/// Whether two strings hold the same characters.
pub fn same_text(a: &str, b: &str) -> (same: bool)
    ensures
        same == (a@ == b@),
{
    let left = to_chars(a);
    let right = to_chars(b);
    if left.len() != right.len() {
        return false;
    }
    let same = matches_at(&left, &right, 0);
    assert(left@.subrange(0, right@.len() as int) =~= left@);
    same
}

/// `s` without the white space at its end.
pub fn trim_end(s: &str) -> (t: String)
    ensures
        t@ == trimmed_end(s@),
{
    let chars = to_chars(s);
    let mut k: usize = chars.len();
    while k > 0 && is_white_space_char(chars[k - 1])
        invariant
            k <= chars.len(),
            forall|j: int| k <= j < chars.len() ==> is_white_space(#[trigger] chars@[j]),
        decreases k,
    {
        k -= 1;
    }
    proof {
        lemma_trimmed_end_at(chars@, k as int);
    }
    string_of(&chars, 0, k)
}

/// Whether `s` holds nothing but white space; so for the empty string.
pub fn is_blank_text(s: &str) -> (b: bool)
    ensures
        b == is_blank(s@),
{
    let chars = to_chars(s);
    let mut i: usize = 0;
    while i < chars.len()
        invariant
            i <= chars.len(),
            chars@ == s@,
            forall|j: int| 0 <= j < i ==> is_white_space(#[trigger] chars@[j]),
        decreases chars.len() - i,
    {
        if !is_white_space_char(chars[i]) {
            return false;
        }
        i += 1;
    }
    true
}

/// `s` without the white space at its start and at its end.
pub fn trim(s: &str) -> (t: String)
    ensures
        t@ == trimmed(s@),
{
    let chars = to_chars(s);
    let mut end: usize = chars.len();
    while end > 0 && is_white_space_char(chars[end - 1])
        invariant
            end <= chars.len(),
            forall|j: int| end <= j < chars.len() ==> is_white_space(#[trigger] chars@[j]),
        decreases end,
    {
        end -= 1;
    }
    let mut start: usize = 0;
    while start < end && is_white_space_char(chars[start])
        invariant
            start <= end <= chars.len(),
            forall|j: int| 0 <= j < start ==> is_white_space(#[trigger] chars@[j]),
        decreases end - start,
    {
        start += 1;
    }
    proof {
        lemma_trimmed_end_at(chars@, end as int);
        let kept = chars@.subrange(0, end as int);
        assert forall|j: int| 0 <= j < start implies is_white_space(#[trigger] kept[j]) by {
            assert(kept[j] == chars@[j]);
        }
        lemma_trimmed_start_at(kept, start as int);
        assert(kept.subrange(start as int, kept.len() as int) =~= chars@.subrange(
            start as int,
            end as int,
        ));
    }
    string_of(&chars, start, end)
}

/// The character of a digit.
fn digit(d: u8) -> (c: char)
    requires
        d < 10,
    ensures
        c == digit_of(d as nat),
{
    if d == 0 {
        '0'
    } else if d == 1 {
        '1'
    } else if d == 2 {
        '2'
    } else if d == 3 {
        '3'
    } else if d == 4 {
        '4'
    } else if d == 5 {
        '5'
    } else if d == 6 {
        '6'
    } else if d == 7 {
        '7'
    } else if d == 8 {
        '8'
    } else {
        '9'
    }
}

/// A number in decimal digits.
pub fn decimal(n: u128) -> (s: String)
    ensures
        s@ == decimal_of(n as nat),
{
    let mut digits: Vec<char> = Vec::new();
    let mut rest: u128 = n;
    assert(digits@.reverse() =~= Seq::<char>::empty());
    while rest >= 10
        invariant
            decimal_of(n as nat) == decimal_of(rest as nat) + digits@.reverse(),
        decreases rest,
    {
        let ghost before = digits@;
        let d = digit((rest % 10) as u8);
        digits.push(d);
        assert(digits@.reverse() =~= seq![d] + before.reverse());
        assert(decimal_of(rest as nat) == decimal_of((rest / 10) as nat).push(d));
        assert(decimal_of((rest / 10) as nat).push(d) + before.reverse() =~= decimal_of(
            (rest / 10) as nat,
        ) + (seq![d] + before.reverse()));
        rest = rest / 10;
    }
    let ghost before = digits@;
    let d = digit(rest as u8);
    digits.push(d);
    assert(digits@.reverse() =~= seq![d] + before.reverse());
    assert(decimal_of(n as nat) =~= digits@.reverse());
    let mut s = String::new();
    let mut i: usize = digits.len();
    while i > 0
        invariant
            i <= digits.len(),
            s@ == digits@.reverse().subrange(0, digits.len() - i),
        decreases i,
    {
        i -= 1;
        s.push(digits[i]);
        assert(s@ =~= digits@.reverse().subrange(0, digits.len() - i));
    }
    assert(s@ =~= digits@.reverse());
    s
}

} // verus!
