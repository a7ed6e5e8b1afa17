//! The scratch file that an entry is written in.

use crate::constants::BIN_NAME;
use crate::text::{decimal, decimal_of};
use vstd::prelude::*;
use vstd::string::StringExecFns;

verus! {

/// A scratch file, known by its path.
pub struct TempFile {
    path: String,
}

/// The path of the scratch file made at the time `now` with the seed `seed`:
/// under `/tmp`, the name of the program, the time and the seed in decimal
/// digits with hyphens between them, and the ending `.txt`.
pub open spec fn temp_path_of(now: nat, seed: nat) -> Seq<char> {
    "/tmp/"@ + BIN_NAME@ + seq!['-'] + decimal_of(now) + seq!['-'] + decimal_of(seed) + ".txt"@
}

impl View for TempFile {
    type V = Seq<char>;

    closed spec fn view(&self) -> Seq<char> {
        self.path@
    }
}

impl TempFile {
    /// The scratch file for the time `now`, in nanoseconds, and the seed
    /// `random_seed`. Nothing is created on disk.
    pub fn new(now: u128, random_seed: u64) -> (file: TempFile)
        ensures
            file@ == temp_path_of(now as nat, random_seed as nat),
    {
        proof {
            reveal_strlit("-");
        }
        let mut path = String::from_str("/tmp/");
        path.append(BIN_NAME);
        path.append("-");
        path.append(decimal(now).as_str());
        path.append("-");
        path.append(decimal(random_seed as u128).as_str());
        path.append(".txt");
        assert("-"@ =~= seq!['-']);
        TempFile { path }
    }

    /// The path of the scratch file.
    pub fn path(&self) -> (path: &str)
        ensures
            path@ == self@,
    {
        self.path.as_str()
    }
}

} // verus!
