//! The names that the program and its document go by.

use vstd::prelude::*;

verus! {

/// The name of the program's binary, and of its directory under the data home.
pub const BIN_NAME: &'static str = "isl";

/// The name of the package.
pub const PKG_NAME: &'static str = "islog";

/// The file name of the document.
pub const DATABASE_NAME: &'static str = "LOG.md";

/// The environment variable that names the data home.
pub const XDG_DATA_HOME: &'static str = "XDG_DATA_HOME";

/// The environment variable that names the home directory.
pub const HOME: &'static str = "HOME";

/// The title line of the document: its one heading of the first level.
pub const TITLE: &'static str = "# LOG";

} // verus!
