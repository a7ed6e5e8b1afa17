//! The errors of the library: a kind with a message, what lies under the
//! error, and the backtrace of the place where the trouble began.

use crate::backtrace::{collect_std_backtrace, collected};
use vstd::prelude::*;
use vstd::string::StringExecFns;

verus! {

pub type Resultx<T> = Result<T, Errx>;

/// The kind of an error, with its message.
#[derive(Debug, PartialEq, Eq)]
pub enum Kndx {
    /// A general error; the validation of an entry fails with this kind.
    G(String),
    /// Reading or writing failed.
    Io(String),
}

/// What lies under an error.
#[derive(Debug)]
pub enum Srcx {
    /// An error of this library.
    Own(Box<Errx>),
    /// An error from elsewhere, of which the messages of its chain are kept:
    /// its own message first, then that of the error under it, and so on.
    Other(Vec<String>),
}

/// An error: its kind, the error under it, and a backtrace as text.
#[derive(Debug)]
pub struct Errx {
    pub src: Option<Srcx>,
    pub bkt: Option<String>,
    pub knd: Kndx,
}

/// The text that `std::backtrace::Backtrace::force_capture` gives for the place
/// of the call. What it holds depends on the program and the machine, so nothing
/// is claimed of it.
#[verifier::external_body]
fn capture_backtrace() -> String {
    format!("{}", std::backtrace::Backtrace::force_capture())
}

impl Kndx {
    /// The text of the kind: what the kind is called, a colon, the message.
    pub open spec fn text(self) -> Seq<char> {
        match self {
            Kndx::G(msg) => "generic error: "@ + msg@,
            Kndx::Io(msg) => "IO error: "@ + msg@,
        }
    }

    /// The text of the kind.
    pub fn message(&self) -> (text: String)
        ensures
            text@ == self.text(),
    {
        match self {
            Kndx::G(msg) => String::from_str("generic error: ").concat(msg.as_str()),
            Kndx::Io(msg) => String::from_str("IO error: ").concat(msg.as_str()),
        }
    }
}

impl Srcx {
    /// The messages from this error down to the last one under it.
    pub open spec fn messages(self) -> Seq<Seq<char>>
        decreases self,
    {
        match self {
            Srcx::Own(e) => e.messages(),
            Srcx::Other(texts) => texts.deep_view(),
        }
    }
}

impl Errx {
    /// The messages from this error down to the last one under it.
    pub open spec fn messages(self) -> Seq<Seq<char>>
        decreases self,
    {
        seq![self.knd.text()] + match self.src {
            Some(under) => under.messages(),
            None => Seq::empty(),
        }
    }

    /// This error with its backtrace taken away.
    pub open spec fn stripped(self) -> Errx {
        Errx { src: self.src, bkt: None, knd: self.knd }
    }

    /// An error of kind `knd` over `src`. Over an error of this library it takes
    /// that error's backtrace for its own, so that the backtrace of a chain is
    /// that of the place where it began; over anything else, and over nothing,
    /// it captures one.
    pub fn new(src: Option<Srcx>, knd: Kndx) -> (e: Errx)
        ensures
            e.knd == knd,
            match src {
                Some(Srcx::Own(under)) => e.src == Some(Srcx::Own(Box::new(under.stripped())))
                    && e.bkt == under.bkt,
                _ => e.src == src && e.bkt is Some,
            },
            e.messages() == seq![knd.text()] + match src {
                Some(under) => under.messages(),
                None => Seq::empty(),
            },
    {
        match src {
            Some(Srcx::Own(under)) => {
                let Errx { src: below, bkt, knd: kind_under } = *under;
                let stripped = Errx { src: below, bkt: None, knd: kind_under };
                assert(stripped.messages() == under.messages());
                Errx { src: Some(Srcx::Own(Box::new(stripped))), bkt, knd }
            },
            Some(Srcx::Other(texts)) => Errx {
                src: Some(Srcx::Other(texts)),
                bkt: Some(capture_backtrace()),
                knd,
            },
            None => Errx { src: None, bkt: Some(capture_backtrace()), knd },
        }
    }

    /// A general error with the message `msg` and nothing under it.
    pub fn g(msg: &str) -> (e: Errx)
        ensures
            e.knd matches Kndx::G(text) && text@ == msg@,
            e.src is None,
            e.bkt is Some,
    {
        Errx::new(None, Kndx::G(msg.to_owned()))
    }

    /// A general error with the message `msg` over `src`.
    pub fn e_g(src: Srcx, msg: &str) -> (e: Errx)
        ensures
            e.knd matches Kndx::G(text) && text@ == msg@,
            e.messages() == seq![e.knd.text()] + src.messages(),
            match src {
                Srcx::Own(under) => e.src == Some(Srcx::Own(Box::new(under.stripped())))
                    && e.bkt == under.bkt,
                Srcx::Other(_) => e.src == Some(src) && e.bkt is Some,
            },
    {
        Errx::new(Some(src), Kndx::G(msg.to_owned()))
    }

    /// An error of reading or writing with the message `msg` and nothing under
    /// it.
    pub fn io(msg: &str) -> (e: Errx)
        ensures
            e.knd matches Kndx::Io(text) && text@ == msg@,
            e.src is None,
            e.bkt is Some,
    {
        Errx::new(None, Kndx::Io(msg.to_owned()))
    }

    /// An error of reading or writing with the message `msg` over `src`.
    pub fn e_io(src: Srcx, msg: &str) -> (e: Errx)
        ensures
            e.knd matches Kndx::Io(text) && text@ == msg@,
            e.messages() == seq![e.knd.text()] + src.messages(),
            match src {
                Srcx::Own(under) => e.src == Some(Srcx::Own(Box::new(under.stripped())))
                    && e.bkt == under.bkt,
                Srcx::Other(_) => e.src == Some(src) && e.bkt is Some,
            },
    {
        Errx::new(Some(src), Kndx::Io(msg.to_owned()))
    }

    /// The message of the error: the text of its kind.
    pub fn message(&self) -> (text: String)
        ensures
            text@ == self.knd.text(),
    {
        self.knd.message()
    }

    /// The frames of the error's backtrace that are worth showing, if it has a
    /// backtrace.
    pub fn backtrace(&self) -> (frames: Option<Vec<String>>)
        ensures
            match self.bkt {
                Some(text) => frames matches Some(shown) && shown.deep_view() == collected(text@),
                None => frames is None,
            },
    {
        match &self.bkt {
            Some(text) => Some(collect_std_backtrace(text.as_str())),
            None => None,
        }
    }

    /// The messages from this error down to the last one under it.
    pub fn chain(&self) -> (chain: Vec<String>)
        ensures
            chain.deep_view() == self.messages(),
    {
        let mut chain: Vec<String> = Vec::new();
        let mut at: &Errx = self;
        assert(chain.deep_view() =~= Seq::<Seq<char>>::empty());
        loop
            invariant
                self.messages() == chain.deep_view() + at.messages(),
            decreases at,
        {
            let ghost so_far = chain.deep_view();
            chain.push(at.knd.message());
            assert(chain.deep_view() =~= so_far.push(at.knd.text()));
            match &at.src {
                None => {
                    assert(chain.deep_view() =~= self.messages());
                    return chain;
                },
                Some(Srcx::Other(texts)) => {
                    let ghost so_far = chain.deep_view();
                    let mut i: usize = 0;
                    while i < texts.len()
                        invariant
                            i <= texts.len(),
                            chain.deep_view() == so_far + texts.deep_view().subrange(0, i as int),
                        decreases texts.len() - i,
                    {
                        let ghost before = chain.deep_view();
                        chain.push(texts[i].clone());
                        assert(chain.deep_view() =~= before.push(texts[i as int]@));
                        i += 1;
                        assert(chain.deep_view() =~= so_far + texts.deep_view().subrange(
                            0,
                            i as int,
                        ));
                    }
                    assert(texts.deep_view().subrange(0, i as int) =~= texts.deep_view());
                    assert(chain.deep_view() =~= self.messages());
                    return chain;
                },
                Some(Srcx::Own(under)) => {
                    assert(chain.deep_view() + under.messages() =~= self.messages());
                    at = &**under;
                },
            }
        }
    }
}

} // verus!
