//! The document store's decisions: where the document lies, what a new document
//! holds, and what it holds after an entry was merged. Reading and writing the
//! file is left to the caller.

use crate::constants::TITLE;
use crate::error::{Errx, Kndx, Resultx};
use crate::log_file::log_file_path_of;
use crate::merge::{
    blank_line, header_of, lemma_merged_keeps_title, lemma_merged_one_section, merge, merged,
    newline, subtitle, title_line,
};
use crate::sanitizer::{sanitize_new_content, sanitized};
use crate::text::{
    is_blank, is_blank_text, join, joined, lemma_trimmed_end_is_trimmed, lines, lines_of,
    trimmed_end,
};
use crate::time::{is_day_text, known_day, no_date_text, year_month_day};
use crate::validator::{is_title, subtitles, validate_new_content, verdict};
use vstd::prelude::*;
use vstd::string::StringExecFns;

verus! {

/// The document, known by the path of its file.
pub struct Database {
    log_file_path: String,
}

impl View for Database {
    type V = Seq<char>;

    closed spec fn view(&self) -> Seq<char> {
        self.log_file_path@
    }
}

/// The message of the error for a data home that is no valid text.
pub open spec fn invalid_home_text() -> Seq<char> {
    "XDG_DATA_HOME is not valid str"@
}

/// The lines of a new document on the day `day`: the title, an empty line, the
/// header of the day.
pub open spec fn initial_lines(day: Seq<char>) -> Seq<Seq<char>> {
    seq![title_line(), blank_line(), header_of(day)]
}

impl Database {
    /// The document under the data home `xdg_data_home`, which is `None` where
    /// the path of the data home is no valid text; that is an error of reading or
    /// writing.
    pub fn init(xdg_data_home: Option<&str>) -> (r: Resultx<Database>)
        ensures
            match xdg_data_home {
                Some(home) => r matches Ok(database) && database@ == log_file_path_of(home@),
                None => r matches Err(e) && e.src is None && (e.knd matches Kndx::Io(text) && text@
                    == invalid_home_text()),
            },
    {
        match create_log_file_path_name(xdg_data_home) {
            Ok(log_file_path) => Ok(Database { log_file_path }),
            Err(e) => Err(e),
        }
    }

    /// The path of the document's file.
    pub fn path(&self) -> (path: &str)
        ensures
            path@ == self@,
    {
        self.log_file_path.as_str()
    }
}

/// The path of the document under the data home `xdg_data_home`, which is `None`
/// where the path of the data home is no valid text.
pub fn create_log_file_path_name(xdg_data_home: Option<&str>) -> (r: Resultx<String>)
    ensures
        match xdg_data_home {
            Some(home) => r matches Ok(path) && path@ == log_file_path_of(home@),
            None => r matches Err(e) && e.src is None && (e.knd matches Kndx::Io(text) && text@
                == invalid_home_text()),
        },
{
    match xdg_data_home {
        Some(home) => Ok(crate::log_file::create_log_file_path_name(home)),
        None => Err(Errx::io("XDG_DATA_HOME is not valid str")),
    }
}

/// What a document that holds `old_content` is to be filled with on the day
/// `day`: the lines of a new document where it holds nothing but white space,
/// and nothing where it holds more.
pub fn initial_content_on(old_content: &str, day: &str) -> (content: Option<String>)
    ensures
        match content {
            Some(text) => is_blank(old_content@) && text@ == joined(initial_lines(day@)),
            None => !is_blank(old_content@),
        },
{
    if !is_blank_text(old_content) {
        return None;
    }
    let mut first: Vec<String> = Vec::new();
    first.push(String::from_str(TITLE));
    first.push(newline());
    first.push(subtitle(day));
    assert(first.deep_view() =~= initial_lines(day@));
    Some(join(&first))
}

/// What a document that holds `old_content` is to be filled with today. The
/// clock is asked only where the document holds nothing but white space; where
/// it then gives no date, that is a general error.
pub fn initial_content(old_content: &str) -> (r: Resultx<Option<String>>)
    ensures
        match r {
            Ok(Some(text)) => is_blank(old_content@) && exists|day: Seq<char>| #[trigger]
                is_day_text(day) && text@ == joined(initial_lines(day)),
            Ok(None) => !is_blank(old_content@),
            Err(e) => is_blank(old_content@) && e.src is None && (e.knd matches Kndx::G(text)
                && text@ == no_date_text()),
        },
{
    if !is_blank_text(old_content) {
        return Ok(None);
    }
    match known_day(year_month_day()) {
        Ok(day) => Ok(initial_content_on(old_content, day.as_str())),
        Err(e) => Err(e),
    }
}

/// The text of the document after the entry `new_content_lines` was merged into
/// the document `old_content_lines` on the day `day`.
pub fn format_content_on(
    new_content_lines: Vec<String>,
    old_content_lines: Vec<String>,
    day: &str,
) -> (content: String)
    ensures
        content@ == joined(
            merged(new_content_lines.deep_view(), old_content_lines.deep_view(), day@),
        ),
{
    join(&merge(&new_content_lines, &old_content_lines, day))
}

/// The text of the document after the entry `new_content_lines` was merged into
/// the document `old_content_lines` today, or a general error where the clock
/// gives no date.
pub fn format_content(
    new_content_lines: Vec<String>,
    old_content_lines: Vec<String>,
) -> (r: Resultx<String>)
    ensures
        match r {
            Ok(content) => exists|day: Seq<char>| #[trigger]
                is_day_text(day) && content@ == joined(
                    merged(new_content_lines.deep_view(), old_content_lines.deep_view(), day),
                ),
            Err(e) => e.src is None && (e.knd matches Kndx::G(text) && text@ == no_date_text()),
        },
{
    match known_day(year_month_day()) {
        Ok(day) => Ok(format_content_on(new_content_lines, old_content_lines, day.as_str())),
        Err(e) => Err(e),
    }
}

/// The text of the document that holds `old_content` after the entry
/// `new_content` was merged into it on the day `day`: the entry is validated,
/// its lines are sanitized and merged into the lines of the document. An entry
/// that the validator refuses gives its refusal, and nothing is merged.
pub fn updated_content_on(new_content: &str, old_content: &str, day: &str) -> (r: Resultx<String>)
    ensures
        match r {
            Ok(content) => verdict(lines_of(new_content@)) is Ok && content@ == joined(
                merged(sanitized(lines_of(new_content@)), lines_of(old_content@), day@),
            ),
            Err(e) => verdict(lines_of(new_content@)) matches Err(refusal) && e.src is None
                && (e.knd matches Kndx::G(text) && text@ == refusal.text()),
        },
{
    match validate_new_content(new_content) {
        Ok(()) => {
            let new_content_lines = sanitize_new_content(lines(new_content));
            Ok(format_content_on(new_content_lines, lines(old_content), day))
        },
        Err(e) => Err(e),
    }
}

/// The text of the document that holds `old_content` after the entry
/// `new_content` was merged into it today. An entry that the validator refuses
/// gives its refusal, and the clock is not asked. Where the clock gives no date
/// for an entry that is accepted, that is a general error.
pub fn updated_content(new_content: &str, old_content: &str) -> (r: Resultx<String>)
    ensures
        match r {
            Ok(content) => verdict(lines_of(new_content@)) is Ok && exists|day: Seq<char>|
                #[trigger] is_day_text(day) && content@ == joined(
                    merged(sanitized(lines_of(new_content@)), lines_of(old_content@), day),
                ),
            Err(e) => e.src is None && (e.knd matches Kndx::G(text) && text@ == match verdict(
                lines_of(new_content@),
            ) {
                Err(refusal) => refusal.text(),
                Ok(_) => no_date_text(),
            }),
        },
{
    match validate_new_content(new_content) {
        Ok(()) => {},
        Err(e) => {
            return Err(e);
        },
    }
    match known_day(year_month_day()) {
        Ok(day) => updated_content_on(new_content, old_content, day.as_str()),
        Err(e) => Err(e),
    }
}

/// A line that is a heading of some level after sanitizing was one before: the
/// white space at its end is all that a line loses.
proof fn lemma_sanitized_heading(line: Seq<char>, mark: Seq<char>)
    requires
        mark.is_prefix_of(trimmed_end(line)),
    ensures
        mark.is_prefix_of(line),
{
    lemma_trimmed_end_is_trimmed(line);
    let kept = trimmed_end(line);
    assert(line.subrange(0, mark.len() as int) =~= kept.subrange(0, mark.len() as int));
}

/// An entry that the validator accepts holds no title line after sanitizing.
pub proof fn lemma_accepted_entry_has_no_title(entry: Seq<Seq<char>>)
    requires
        verdict(entry) is Ok,
    ensures
        !sanitized(entry).contains(title_line()),
{
    if sanitized(entry).contains(title_line()) {
        let i = choose|i: int| 0 <= i < sanitized(entry).len() && sanitized(entry)[i] == title_line();
        let mark = seq!['#', ' '];
        reveal_strlit("# LOG");
        assert(title_line().len() == 5);
        assert(title_line().subrange(0, 2) =~= mark);
        lemma_sanitized_heading(entry[i], mark);
        assert(is_title(entry[i]));
    }
}

/// After sanitizing, an entry holds the header of a day no more often than it
/// has headings of the second level.
pub proof fn lemma_entry_headers_bound(entry: Seq<Seq<char>>, day: Seq<char>)
    ensures
        sanitized(entry).to_multiset().count(header_of(day)) <= subtitles(entry),
    decreases entry.len(),
{
    broadcast use vstd::multiset::group_multiset_axioms;

    let header = header_of(day);
    if entry.len() == 0 {
        vstd::seq_lib::to_multiset_contains(sanitized(entry), header);
    } else {
        let front = entry.drop_last();
        let last = trimmed_end(entry.last());
        lemma_entry_headers_bound(front, day);
        assert(sanitized(entry) =~= sanitized(front).push(last));
        vstd::seq_lib::to_multiset_build(sanitized(front), last);
        if last == header {
            let mark = seq!['#', '#', ' '];
            assert(header.subrange(0, 3) =~= mark);
            lemma_sanitized_heading(entry.last(), mark);
        }
    }
}

/// Merging an accepted and sanitized entry keeps the shape of the document. It
/// has its title line as often as before. And it has the day's header exactly
/// once where it had the header at most once, unless the entry brings a header
/// that the document has already.
pub proof fn lemma_update_keeps_shape(
    entry: Seq<Seq<char>>,
    old_lines: Seq<Seq<char>>,
    day: Seq<char>,
)
    requires
        verdict(entry) is Ok,
    ensures
        merged(sanitized(entry), old_lines, day).to_multiset().count(title_line())
            == old_lines.to_multiset().count(title_line()),
        old_lines.to_multiset().count(header_of(day)) <= 1 && !(old_lines.contains(header_of(day))
            && sanitized(entry).contains(header_of(day))) ==> merged(
            sanitized(entry),
            old_lines,
            day,
        ).to_multiset().count(header_of(day)) == 1,
{
    lemma_accepted_entry_has_no_title(entry);
    lemma_merged_keeps_title(sanitized(entry), old_lines, day);
    lemma_entry_headers_bound(entry, day);
    if old_lines.to_multiset().count(header_of(day)) <= 1 && !(old_lines.contains(header_of(day))
        && sanitized(entry).contains(header_of(day))) {
        lemma_merged_one_section(sanitized(entry), old_lines, day);
    }
}

} // verus!
