//! The validator: which entries may be merged into the document.
//!
//! A heading of the first level is a line that begins with `# `, one of the
//! second level a line that begins with `## `. An entry may bring no heading of
//! the first level, since the document has its one title, and at most one of the
//! second, the header of its day.

use crate::error::{Errx, Kndx, Resultx};
use crate::text::{decimal, decimal_of, lines, lines_of, starts_with};
use vstd::prelude::*;
use vstd::string::StringExecFns;

verus! {

/// Why an entry is refused.
#[derive(Debug, Clone, Copy, PartialEq, Eq)]
pub enum ValidationError {
    /// A line of the entry is a heading of the first level.
    TitleNotAllowed,
    /// The entry has this many headings of the second level, more than one.
    TooManySubtitles(usize),
}

/// Whether `line` is a heading of the first level.
pub open spec fn is_title(line: Seq<char>) -> bool {
    seq!['#', ' '].is_prefix_of(line)
}

/// Whether `line` is a heading of the second level.
pub open spec fn is_subtitle(line: Seq<char>) -> bool {
    seq!['#', '#', ' '].is_prefix_of(line)
}

/// Whether one of `lines` is a heading of the first level.
pub open spec fn has_title(lines: Seq<Seq<char>>) -> bool {
    exists|i: int| 0 <= i < lines.len() && is_title(#[trigger] lines[i])
}

/// How many of `lines` are headings of the second level.
pub open spec fn subtitles(lines: Seq<Seq<char>>) -> nat
    decreases lines.len(),
{
    if lines.len() == 0 {
        0
    } else {
        subtitles(lines.drop_last()) + if is_subtitle(lines.last()) {
            1nat
        } else {
            0nat
        }
    }
}

/// The verdict on an entry with these lines: refused for a heading of the first
/// level wherever it stands, else refused for more than one heading of the
/// second level, else accepted.
pub open spec fn verdict(lines: Seq<Seq<char>>) -> Result<(), ValidationError> {
    if has_title(lines) {
        Err(ValidationError::TitleNotAllowed)
    } else if subtitles(lines) > 1 {
        Err(ValidationError::TooManySubtitles(subtitles(lines) as usize))
    } else {
        Ok(())
    }
}

impl ValidationError {
    /// The message of the refusal.
    pub open spec fn text(self) -> Seq<char> {
        match self {
            ValidationError::TitleNotAllowed => "cannot have Title (Header 1) in new content"@,
            ValidationError::TooManySubtitles(count) => {
                "cannot have more than one Subtitle (Header 2) in new content; currently having "@
                    + decimal_of(count as nat) + " subtitles"@
            },
        }
    }

    /// The message of the refusal.
    pub fn message(&self) -> (text: String)
        ensures
            text@ == self.text(),
    {
        match self {
            ValidationError::TitleNotAllowed => String::from_str(
                "cannot have Title (Header 1) in new content",
            ),
            ValidationError::TooManySubtitles(count) => {
                let mut text = String::from_str(
                    "cannot have more than one Subtitle (Header 2) in new content; currently having ",
                );
                text.append(decimal(*count as u128).as_str());
                text.append(" subtitles");
                text
            },
        }
    }
}

/// Says whether the entry `new_content` may be merged, and if not, why.
pub fn validate(new_content: &str) -> (r: Result<(), ValidationError>)
    ensures
        r == verdict(lines_of(new_content@)),
{
    let entry = lines(new_content);
    let mut title_seen = false;
    let mut count: usize = 0;
    let mut i: usize = 0;
    proof {
        reveal_strlit("# ");
        reveal_strlit("## ");
        assert("# "@ =~= seq!['#', ' ']);
        assert("## "@ =~= seq!['#', '#', ' ']);
        assert(entry.deep_view().subrange(0, 0) =~= Seq::<Seq<char>>::empty());
    }
    while i < entry.len()
        invariant
            i <= entry.len(),
            "# "@ == seq!['#', ' '],
            "## "@ == seq!['#', '#', ' '],
            title_seen == has_title(entry.deep_view().subrange(0, i as int)),
            count == subtitles(entry.deep_view().subrange(0, i as int)),
            count <= i,
        decreases entry.len() - i,
    {
        let ghost seen = entry.deep_view().subrange(0, i as int);
        let ghost next = entry.deep_view().subrange(0, i + 1);
        let title_here = starts_with(entry[i].as_str(), "# ");
        let subtitle_here = starts_with(entry[i].as_str(), "## ");
        proof {
            assert(next.drop_last() =~= seen);
            assert(next.last() == entry[i as int]@);
            if has_title(seen) {
                let k = choose|k: int| 0 <= k < seen.len() && is_title(#[trigger] seen[k]);
                assert(next[k] == seen[k]);
            }
            if title_here {
                assert(is_title(next[i as int]));
            }
            if has_title(next) && !title_here {
                let k = choose|k: int| 0 <= k < next.len() && is_title(#[trigger] next[k]);
                assert(seen[k] == next[k]);
            }
        }
        if title_here {
            title_seen = true;
        }
        if subtitle_here {
            count += 1;
        }
        i += 1;
    }
    assert(entry.deep_view().subrange(0, i as int) =~= entry.deep_view());
    if title_seen {
        Err(ValidationError::TitleNotAllowed)
    } else if count > 1 {
        Err(ValidationError::TooManySubtitles(count))
    } else {
        Ok(())
    }
}

/// Accepts the entry `new_content`, or refuses it with a general error that
/// carries the message of the refusal.
pub fn validate_new_content(new_content: &str) -> (r: Resultx<()>)
    ensures
        r is Ok <==> verdict(lines_of(new_content@)) is Ok,
        r matches Err(e) ==> e.src is None && e.bkt is Some && (e.knd matches Kndx::G(text)
            && text@ == verdict(lines_of(new_content@))->Err_0.text()),
{
    match validate(new_content) {
        Ok(()) => Ok(()),
        Err(refusal) => Err(Errx::g(refusal.message().as_str())),
    }
}

} // verus!
