//! Decisions around locating the configuration file.
//!
//! The search on disk itself is the caller's work; these functions decide
//! what its outcome means and which file extensions are supported.

use vstd::prelude::*;
use vstd::string::StringExecFns;

verus! {

/// The searched directory holds no semantic-release configuration.
#[derive(Debug)]
pub struct MissingConfiguration {
    pub directory: String,
}

/// Turns the outcome of the configuration search in `directory` into the
/// path to use: a missing configuration is an error naming the directory.
pub fn find_semantic_release_config(directory: &String, found: Option<String>) -> (r: Result<
    String,
    MissingConfiguration,
>)
    ensures
        match found {
            Some(p) => r == Ok::<String, MissingConfiguration>(p),
            None => r is Err && r->Err_0.directory@ == directory@,
        },
{
    match found {
        Some(p) => Ok(p),
        None => Err(MissingConfiguration { directory: directory.clone() }),
    }
}

/// Whether a configuration file extension is unsupported: only `json` is
/// supported, and a file without an extension is not rejected here.
pub fn is_unsupported_file_extension(extension: Option<&String>) -> (r: bool)
    ensures
        r == match extension {
            Some(e) => e@ != "json"@,
            None => false,
        },
{
    match extension {
        Some(e) => {
            let json = String::from_str("json");
            !(*e == json)
        },
        None => false,
    }
}

} // verus!
