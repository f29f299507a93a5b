//! Where the application keeps its files: the names of its directories and
//! files, each as a path from the directory that holds it.
//!
//! The directories of the user (for data, for documents) are found by the
//! application when it runs; what it puts into them is named here.

use vstd::prelude::*;

verus! {

/// The path of the tags file, from the data directory of the application.
pub fn tags_file_path() -> (path: String)
    ensures
        path@ == "tags.json"@,
{
    "tags.json".to_owned()
}

/// The path of the directory of the session logs, from the data directory
/// of the application.
pub fn logs_dir() -> (path: String)
    ensures
        path@ == "logs"@,
{
    "logs".to_owned()
}

/// The path of the directory of the application, from the documents
/// directory of the user.
pub fn documents_root() -> (path: String)
    ensures
        path@ == "AudioTagger"@,
{
    "AudioTagger".to_owned()
}

/// The path of the directory of the tag banks, from [`documents_root`].
pub fn banks_dir() -> (path: String)
    ensures
        path@ == "Banks"@,
{
    "Banks".to_owned()
}

/// The path of the preferences file, from [`documents_root`].
pub fn prefs_path() -> (path: String)
    ensures
        path@ == "prefs.json"@,
{
    "prefs.json".to_owned()
}

} // verus!
