//! The data home that is used where the environment names none.

use vstd::prelude::*;
use vstd::string::StringExecFns;

verus! {

/// The data home below a home directory, relative to it.
pub const DEFAULT_XDG_DATA_HOME_DIR: &'static str = ".local/share";

/// The default data home of the home directory `home`.
pub open spec fn default_data_home_of(home: Seq<char>) -> Seq<char> {
    home + seq!['/'] + DEFAULT_XDG_DATA_HOME_DIR@
}

/// The default data home of the home directory `home_dir`.
pub fn default_xdg_data_home(home_dir: &str) -> (path: String)
    ensures
        path@ == default_data_home_of(home_dir@),
{
    proof {
        reveal_strlit("/");
    }
    let mut path = String::from_str(home_dir);
    path.append("/");
    path.append(DEFAULT_XDG_DATA_HOME_DIR);
    assert("/"@ =~= seq!['/']);
    path
}

} // verus!
