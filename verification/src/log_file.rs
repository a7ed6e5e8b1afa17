//! Where the document lies.

use crate::constants::{BIN_NAME, DATABASE_NAME};
use vstd::prelude::*;
use vstd::string::StringExecFns;

verus! {

/// The path of the document under the data home `home`: the directory of the
/// program, and in it the document's file.
pub open spec fn log_file_path_of(home: Seq<char>) -> Seq<char> {
    home + seq!['/'] + BIN_NAME@ + seq!['/'] + DATABASE_NAME@
}

/// The path of the document under the data home `xdg_data_home`.
pub fn create_log_file_path_name(xdg_data_home: &str) -> (path: String)
    ensures
        path@ == log_file_path_of(xdg_data_home@),
{
    proof {
        reveal_strlit("/");
    }
    let mut path = String::from_str(xdg_data_home);
    path.append("/");
    path.append(BIN_NAME);
    path.append("/");
    path.append(DATABASE_NAME);
    assert("/"@ =~= seq!['/']);
    path
}

} // verus!
