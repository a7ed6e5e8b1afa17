//! The frames of a backtrace that are worth showing.
//!
//! A backtrace comes as text. Each frame has a line with its symbol and, in most
//! cases, a line behind it that begins with `at` and names the file. Frames of
//! the standard library, of the runtime and of dependencies are left out.

use crate::text::{
    lines, lines_of, occurs, occurs_in, starts_with, to_chars, trim, trimmed,
};
use vstd::prelude::*;
use vstd::string::StringExecFns;

verus! {

/// A frame: the line of its symbol, empty where there was none, and the line of
/// its place, both without white space around them.
pub struct Frame {
    pub symbol: String,
    pub at: Option<String>,
}

/// The characters of a string that may be missing.
pub open spec fn text_of(s: Option<String>) -> Option<Seq<char>> {
    match s {
        Some(text) => Some(text@),
        None => None,
    }
}

/// A frame as sequences of characters.
pub struct FrameView {
    pub symbol: Seq<char>,
    pub at: Option<Seq<char>>,
}

impl View for Frame {
    type V = FrameView;

    open spec fn view(&self) -> FrameView {
        FrameView {
            symbol: self.symbol@,
            at: text_of(self.at),
        }
    }
}

/// Whether a line names the place of a frame.
pub open spec fn is_place(line: Seq<char>) -> bool {
    seq!['a', 't', ' '].is_prefix_of(line)
}

/// The frames that `lines` hold, where `pending` is the symbol line that came
/// last and has no place yet. A symbol line that another symbol line follows is
/// a frame without a place; a place that no symbol line precedes is a frame with
/// the empty symbol. A symbol line at the very end is no frame.
pub open spec fn frames_from(lines: Seq<Seq<char>>, pending: Option<Seq<char>>) -> Seq<FrameView>
    decreases lines.len(),
{
    if lines.len() == 0 {
        Seq::empty()
    } else {
        let line = trimmed(lines[0]);
        let rest = lines.drop_first();
        if is_place(line) {
            let symbol = match pending {
                Some(symbol) => symbol,
                None => Seq::empty(),
            };
            seq![FrameView { symbol, at: Some(line) }] + frames_from(rest, None)
        } else {
            match pending {
                Some(symbol) => seq![FrameView { symbol, at: None }] + frames_from(
                    rest,
                    Some(line),
                ),
                None => frames_from(rest, Some(line)),
            }
        }
    }
}

/// Whether a line speaks of the project itself.
pub open spec fn names_project(line: Seq<char>) -> bool {
    occurs_in("pyrope"@, line)
}

/// Whether a symbol belongs to the standard library or the runtime.
pub open spec fn is_runtime_symbol(symbol: Seq<char>) -> bool {
    ||| occurs_in("std::"@, symbol)
    ||| occurs_in("core::"@, symbol)
    ||| occurs_in("backtrace::backtrace::"@, symbol)
    ||| occurs_in("_rust_begin_unwind"@, symbol)
    ||| occurs_in("__rust_"@, symbol)
    ||| occurs_in("___rust_"@, symbol)
    ||| occurs_in("__pthread"@, symbol)
    ||| occurs_in("_main"@, symbol)
    ||| occurs_in("__scrt_common_main_seh"@, symbol)
    ||| occurs_in("BaseThreadInitThunk"@, symbol)
    ||| occurs_in("_start"@, symbol)
    ||| occurs_in("__libc_start_main"@, symbol)
    ||| occurs_in("start_thread"@, symbol)
}

/// Whether a place lies in the toolchain or in the sources of a dependency.
pub open spec fn is_dependency_place(place: Seq<char>) -> bool {
    ||| occurs_in("/rust/"@, place)
    ||| occurs_in("/rustc/"@, place)
    ||| occurs_in("rustup/toolchains"@, place)
    ||| occurs_in("src/libstd/"@, place)
    ||| occurs_in("src/libpanic_unwind/"@, place)
    ||| occurs_in("src/libtest/"@, place)
    ||| occurs_in("cargo/registry/src/"@, place)
    ||| occurs_in("cargo/git/checkouts/"@, place)
}

/// Whether a frame is left out. A frame that names the project, in its symbol or
/// in its place, is never left out. Of the others, those with a symbol of the
/// runtime are, and those with a place in a dependency.
pub open spec fn is_dependency_frame(frame: FrameView) -> bool {
    if names_project(frame.symbol) || (frame.at matches Some(place) && names_project(place)) {
        false
    } else if is_runtime_symbol(frame.symbol) {
        true
    } else {
        frame.at matches Some(place) && is_dependency_place(place)
    }
}

/// A frame as one line: the symbol, and behind a space the place if it has one.
pub open spec fn shown(frame: FrameView) -> Seq<char> {
    match frame.at {
        Some(place) => frame.symbol + seq![' '] + place,
        None => frame.symbol,
    }
}

/// The lines of the frames that are not left out, in their order.
pub open spec fn shown_frames(frames: Seq<FrameView>) -> Seq<Seq<char>>
    decreases frames.len(),
{
    if frames.len() == 0 {
        Seq::empty()
    } else if is_dependency_frame(frames.last()) {
        shown_frames(frames.drop_last())
    } else {
        shown_frames(frames.drop_last()).push(shown(frames.last()))
    }
}

/// What is shown of the backtrace `text`.
pub open spec fn collected(text: Seq<char>) -> Seq<Seq<char>> {
    shown_frames(frames_from(lines_of(text), None))
}

/// Whether a symbol belongs to the standard library or the runtime.
fn runtime_symbol(symbol: &Vec<char>) -> (b: bool)
    ensures
        b == is_runtime_symbol(symbol@),
{
    occurs(symbol, &to_chars("std::")) || occurs(symbol, &to_chars("core::")) || occurs(
        symbol,
        &to_chars("backtrace::backtrace::"),
    ) || occurs(symbol, &to_chars("_rust_begin_unwind")) || occurs(symbol, &to_chars("__rust_"))
        || occurs(symbol, &to_chars("___rust_")) || occurs(symbol, &to_chars("__pthread"))
        || occurs(symbol, &to_chars("_main")) || occurs(
        symbol,
        &to_chars("__scrt_common_main_seh"),
    ) || occurs(symbol, &to_chars("BaseThreadInitThunk")) || occurs(symbol, &to_chars("_start"))
        || occurs(symbol, &to_chars("__libc_start_main")) || occurs(
        symbol,
        &to_chars("start_thread"),
    )
}

/// Whether a place lies in the toolchain or in the sources of a dependency.
fn dependency_place(place: &Vec<char>) -> (b: bool)
    ensures
        b == is_dependency_place(place@),
{
    occurs(place, &to_chars("/rust/")) || occurs(place, &to_chars("/rustc/")) || occurs(
        place,
        &to_chars("rustup/toolchains"),
    ) || occurs(place, &to_chars("src/libstd/")) || occurs(
        place,
        &to_chars("src/libpanic_unwind/"),
    ) || occurs(place, &to_chars("src/libtest/")) || occurs(
        place,
        &to_chars("cargo/registry/src/"),
    ) || occurs(place, &to_chars("cargo/git/checkouts/"))
}

/// Whether a frame is left out.
pub fn is_dependency_code(frame: &Frame) -> (b: bool)
    ensures
        b == is_dependency_frame(frame@),
{
    let project = to_chars("pyrope");
    let symbol = to_chars(frame.symbol.as_str());
    if occurs(&symbol, &project) {
        return false;
    }
    match &frame.at {
        Some(place) => {
            let place = to_chars(place.as_str());
            if occurs(&place, &project) {
                false
            } else if runtime_symbol(&symbol) {
                true
            } else {
                dependency_place(&place)
            }
        },
        None => runtime_symbol(&symbol),
    }
}

/// A frame as one line.
pub fn show(frame: &Frame) -> (line: String)
    ensures
        line@ == shown(frame@),
{
    let mut line = frame.symbol.clone();
    match &frame.at {
        Some(place) => {
            proof {
                reveal_strlit(" ");
            }
            line.append(" ");
            line.append(place.as_str());
            assert(" "@ =~= seq![' ']);
        },
        None => {},
    }
    line
}

/// The frames of the backtrace `backtrace` that are worth showing, each as one
/// line.
pub fn collect_std_backtrace(backtrace: &str) -> (out: Vec<String>)
    ensures
        out.deep_view() == collected(backtrace@),
{
    let all = lines(backtrace);
    let mut out: Vec<String> = Vec::new();
    let mut last_symbol: Option<String> = None;
    let ghost mut done: Seq<FrameView> = Seq::empty();
    let mut i: usize = 0;
    proof {
        reveal_strlit("at ");
        assert("at "@ =~= seq!['a', 't', ' ']);
        assert(all.deep_view().subrange(0, all.len() as int) =~= all.deep_view());
        assert(out.deep_view() =~= Seq::<Seq<char>>::empty());
    }
    while i < all.len()
        invariant
            i <= all.len(),
            "at "@ == seq!['a', 't', ' '],
            all.deep_view() == lines_of(backtrace@),
            out.deep_view() == shown_frames(done),
            frames_from(all.deep_view(), None) == done + frames_from(
                all.deep_view().subrange(i as int, all.len() as int),
                text_of(last_symbol),
            ),
        decreases all.len() - i,
    {
        let ghost rest = all.deep_view().subrange(i as int, all.len() as int);
        let ghost pending = text_of(last_symbol);
        let line = trim(all[i].as_str());
        let is_symbol_line = !starts_with(line.as_str(), "at ");
        proof {
            assert(rest[0] == all.deep_view()[i as int]);
            assert(rest.drop_first() =~= all.deep_view().subrange(i + 1, all.len() as int));
        }
        let frame: Option<Frame> = if is_symbol_line {
            let closed = match last_symbol {
                Some(symbol) => Some(Frame { symbol, at: None }),
                None => None,
            };
            last_symbol = Some(line);
            closed
        } else {
            let symbol = match last_symbol {
                Some(symbol) => symbol,
                None => String::new(),
            };
            last_symbol = None;
            Some(Frame { symbol, at: Some(line) })
        };
        match frame {
            Some(frame) => {
                proof {
                    assert(frames_from(rest, pending) =~= seq![frame@] + frames_from(
                        rest.drop_first(),
                        text_of(last_symbol),
                    ));
                    assert(done.push(frame@).drop_last() =~= done);
                }
                if !is_dependency_code(&frame) {
                    let ghost before = out.deep_view();
                    let shown_line = show(&frame);
                    out.push(shown_line);
                    assert(out.deep_view() =~= before.push(shown(frame@)));
                }
                proof {
                    let ghost next = done.push(frame@);
                    assert(done + frames_from(rest, pending) =~= next + frames_from(
                        rest.drop_first(),
                        text_of(last_symbol),
                    ));
                    done = next;
                }
            },
            None => {},
        }
        i += 1;
    }
    proof {
        assert(all.deep_view().subrange(i as int, all.len() as int) =~= Seq::<
            Seq<char>,
        >::empty());
        assert(done + Seq::<FrameView>::empty() =~= done);
    }
    out
}

} // verus!
