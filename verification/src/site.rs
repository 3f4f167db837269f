//! Where the files of the web page lie on the server.

use vstd::prelude::*;
use vstd::string::StringExecFns;

verus! {

/// The path of the page that is served at the root of the site.
pub fn index() -> (path: String)
    ensures
        path@ == "target/deploy/index.html"@,
{
    String::from_str("target/deploy/index.html")
}

/// The path of a static file of the site: the file's path as it was asked
/// for, below the directory of the deployed files.
pub fn files(file: &str) -> (path: String)
    ensures
        path@ == "target/deploy/"@ + file@,
{
    String::from_str("target/deploy/").concat(file)
}

} // verus!
